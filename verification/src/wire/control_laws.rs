//! What the host says is understood.

use vstd::prelude::*;
use vstd::utf8::encode_utf8;

use crate::text::law_decimal_reads_back;
use crate::wire::control::lemma_numbers_sound;
use crate::wire::control::lemma_object_is_sound;
use crate::wire::control::lemma_value_payload_reads_back;
use crate::wire::control::note_in;
use crate::wire::control::note_of;
use crate::wire::control::rect_in;
use crate::wire::control::size_in;
use crate::wire::control::tile_in;
use crate::wire::control::tiles_in;
use crate::wire::control::u32_in;
use crate::wire::control::Problem;
use crate::wire::control::Rect;
use crate::wire::control::ServerNote;
use crate::wire::control::Size;
use crate::wire::control::TileWindow;
use crate::wire::control::WindowKind;
use crate::wire::input::number_json;
use crate::wire::json::json_text;
use crate::wire::json::Json;
use crate::wire::json_laws::numbers_are_sound;

verus! {

/// A rectangle as the host writes it.
pub open spec fn rect_json(r: Rect) -> Json {
    Json::Object(
        seq![
            ("x"@, number_json(r.x as int)),
            ("y"@, number_json(r.y as int)),
            ("w"@, number_json(r.w as int)),
            ("h"@, number_json(r.h as int)),
        ],
    )
}

/// A size as the host writes it.
pub open spec fn size_json(s: Size) -> Json {
    Json::Object(seq![("w"@, number_json(s.w as int)), ("h"@, number_json(s.h as int))])
}

/// One window of a layout as the host writes it.
pub open spec fn tile_json(t: TileWindow) -> Json {
    Json::Object(seq![("id"@, number_json(t.id as int)), ("rect"@, rect_json(t.rect))])
}

pub open spec fn tiles_json(tiles: Seq<TileWindow>) -> Seq<Json> {
    Seq::new(tiles.len(), |i: int| tile_json(tiles[i]))
}

/// A kind's name on the wire.
pub open spec fn kind_name(kind: WindowKind) -> Seq<char> {
    match kind {
        WindowKind::Normal => "normal"@,
        WindowKind::Menu => "menu"@,
        WindowKind::Sheet => "sheet"@,
        WindowKind::Popover => "popover"@,
    }
}

/// The JSON object that the host sends for a message.
pub open spec fn server_json(m: ServerNote) -> Json {
    match m {
        ServerNote::Hello { protocol, vds } => Json::Object(
            seq![
                ("type"@, Json::Str("hello"@)),
                ("protocol"@, number_json(protocol as int)),
                ("vdsSize"@, size_json(vds)),
            ],
        ),
        ServerNote::WindowCreated { id, rect, title, kind } => Json::Object(
            seq![
                ("type"@, Json::Str("windowCreated"@)),
                ("id"@, number_json(id as int)),
                ("rect"@, rect_json(rect)),
                ("title"@, Json::Str(title)),
                ("kind"@, Json::Str(kind_name(kind))),
            ],
        ),
        ServerNote::WindowMoved { id, rect } => Json::Object(
            seq![
                ("type"@, Json::Str("windowMoved"@)),
                ("id"@, number_json(id as int)),
                ("rect"@, rect_json(rect)),
            ],
        ),
        ServerNote::WindowDestroyed { id } => Json::Object(
            seq![("type"@, Json::Str("windowDestroyed"@)), ("id"@, number_json(id as int))],
        ),
        ServerNote::WindowTitle { id, title } => Json::Object(
            seq![
                ("type"@, Json::Str("windowTitle"@)),
                ("id"@, number_json(id as int)),
                ("title"@, Json::Str(title)),
            ],
        ),
        ServerNote::WindowFocused { id } => Json::Object(
            seq![("type"@, Json::Str("windowFocused"@)), ("id"@, number_json(id as int))],
        ),
        ServerNote::TileLayout { windows, display } => Json::Object(
            seq![
                ("type"@, Json::Str("tileLayout"@)),
                ("windows"@, Json::Array(tiles_json(windows))),
                ("displaySize"@, size_json(display)),
            ],
        ),
        ServerNote::Error { code, message } => Json::Object(
            seq![
                ("type"@, Json::Str("error"@)),
                ("code"@, number_json(code as int)),
                ("message"@, Json::Str(message)),
            ],
        ),
    }
}

proof fn lemma_keys_differ()
    ensures
        "x"@ != "y"@ && "x"@ != "w"@ && "x"@ != "h"@ && "y"@ != "w"@ && "y"@ != "h"@ && "w"@
            != "h"@,
        "type"@ != "protocol"@ && "type"@ != "vdsSize"@ && "protocol"@ != "vdsSize"@,
        "type"@ != "id"@ && "type"@ != "rect"@ && "type"@ != "title"@ && "type"@ != "kind"@,
        "id"@ != "rect"@ && "id"@ != "title"@ && "id"@ != "kind"@ && "rect"@ != "title"@ && "rect"@
            != "kind"@ && "title"@ != "kind"@,
        "type"@ != "windows"@ && "type"@ != "displaySize"@ && "windows"@ != "displaySize"@,
        "type"@ != "code"@ && "type"@ != "message"@ && "code"@ != "message"@,
{
    reveal_strlit("x");
    reveal_strlit("y");
    reveal_strlit("w");
    reveal_strlit("h");
    reveal_strlit("type");
    reveal_strlit("protocol");
    reveal_strlit("vdsSize");
    reveal_strlit("id");
    reveal_strlit("rect");
    reveal_strlit("title");
    reveal_strlit("kind");
    reveal_strlit("windows");
    reveal_strlit("displaySize");
    reveal_strlit("code");
    reveal_strlit("message");
    assert("x"@[0] == 'x' && "y"@[0] == 'y' && "w"@[0] == 'w' && "h"@[0] == 'h');
    assert("type"@[0] == 't' && "rect"@[0] == 'r' && "kind"@[0] == 'k' && "code"@[0] == 'c');
    assert("protocol"@.len() == 8 && "vdsSize"@.len() == 7 && "id"@.len() == 2 && "title"@.len()
        == 5);
    assert("type"@.len() == 4 && "rect"@.len() == 4 && "kind"@.len() == 4 && "code"@.len() == 4);
    assert("windows"@.len() == 7 && "displaySize"@.len() == 11 && "message"@.len() == 7);
}

proof fn lemma_types_differ()
    ensures
        "windowCreated"@ != "hello"@,
        "windowMoved"@ != "hello"@ && "windowMoved"@ != "windowCreated"@,
        "windowDestroyed"@ != "hello"@ && "windowDestroyed"@ != "windowCreated"@
            && "windowDestroyed"@ != "windowMoved"@,
        "windowTitle"@ != "hello"@ && "windowTitle"@ != "windowCreated"@ && "windowTitle"@
            != "windowMoved"@ && "windowTitle"@ != "windowDestroyed"@,
        "windowFocused"@ != "hello"@ && "windowFocused"@ != "windowCreated"@ && "windowFocused"@
            != "windowMoved"@ && "windowFocused"@ != "windowDestroyed"@ && "windowFocused"@
            != "windowTitle"@,
        "tileLayout"@ != "hello"@ && "tileLayout"@ != "windowCreated"@ && "tileLayout"@
            != "windowMoved"@ && "tileLayout"@ != "windowDestroyed"@ && "tileLayout"@
            != "windowTitle"@ && "tileLayout"@ != "windowFocused"@,
        "error"@ != "hello"@ && "error"@ != "windowCreated"@ && "error"@ != "windowMoved"@
            && "error"@ != "windowDestroyed"@ && "error"@ != "windowTitle"@ && "error"@
            != "windowFocused"@ && "error"@ != "tileLayout"@,
{
    reveal_strlit("hello");
    reveal_strlit("windowCreated");
    reveal_strlit("windowMoved");
    reveal_strlit("windowDestroyed");
    reveal_strlit("windowTitle");
    reveal_strlit("windowFocused");
    reveal_strlit("tileLayout");
    reveal_strlit("error");
    assert("hello"@.len() == 5 && "error"@.len() == 5 && "hello"@[0] == 'h' && "error"@[0] == 'e');
    assert("windowCreated"@.len() == 13 && "windowFocused"@.len() == 13);
    assert("windowCreated"@[6] == 'C' && "windowFocused"@[6] == 'F');
    assert("windowMoved"@.len() == 11 && "windowTitle"@.len() == 11);
    assert("windowMoved"@[6] == 'M' && "windowTitle"@[6] == 'T');
    assert("windowDestroyed"@.len() == 15 && "tileLayout"@.len() == 10);
}

proof fn lemma_kinds_read_back(kind: WindowKind)
    ensures
        WindowKind::named(kind_name(kind)) == kind,
{
    reveal_strlit("normal");
    reveal_strlit("menu");
    reveal_strlit("sheet");
    reveal_strlit("popover");
    assert("normal"@.len() == 6 && "menu"@.len() == 4 && "sheet"@.len() == 5 && "popover"@.len()
        == 7);
}

proof fn lemma_number_reads_back(n: nat, max: nat)
    requires
        n <= max,
    ensures
        number_json(n as int).unsigned(max) == Some(n),
{
    law_decimal_reads_back(n, max);
}

/// What stands first in an object, or behind one other member, and so on.
proof fn lemma_first(fields: Seq<(Seq<char>, Json)>, i: int, key: Seq<char>)
    requires
        0 <= i < fields.len(),
        fields[i].0 == key,
        forall|k: int| 0 <= k < i ==> (#[trigger] fields[k]).0 != key,
    ensures
        Json::Object(fields).field(key) == Some(fields[i].1),
    decreases i,
{
    if i > 0 {
        let rest = fields.skip(1);
        assert forall|k: int| 0 <= k < i - 1 implies (#[trigger] rest[k]).0 != key by {
            assert(rest[k] == fields[k + 1]);
        }
        lemma_first(rest, i - 1, key);
        assert(fields[0].0 != key);
    }
}

proof fn lemma_rect_reads_back(r: Rect)
    ensures
        ({
            let v = rect_json(r);
            &&& u32_in(v, "x"@) == Ok::<u32, Problem>(r.x)
            &&& u32_in(v, "y"@) == Ok::<u32, Problem>(r.y)
            &&& u32_in(v, "w"@) == Ok::<u32, Problem>(r.w)
            &&& u32_in(v, "h"@) == Ok::<u32, Problem>(r.h)
        }),
{
    lemma_keys_differ();
    let fields = rect_json(r)->Object_0;
    lemma_first(fields, 0, "x"@);
    lemma_first(fields, 1, "y"@);
    lemma_first(fields, 2, "w"@);
    lemma_first(fields, 3, "h"@);
    lemma_number_reads_back(r.x as nat, u32::MAX as nat);
    lemma_number_reads_back(r.y as nat, u32::MAX as nat);
    lemma_number_reads_back(r.w as nat, u32::MAX as nat);
    lemma_number_reads_back(r.h as nat, u32::MAX as nat);
}

proof fn lemma_size_reads_back(s: Size)
    ensures
        ({
            let v = size_json(s);
            &&& u32_in(v, "w"@) == Ok::<u32, Problem>(s.w)
            &&& u32_in(v, "h"@) == Ok::<u32, Problem>(s.h)
        }),
{
    lemma_keys_differ();
    let fields = size_json(s)->Object_0;
    lemma_first(fields, 0, "w"@);
    lemma_first(fields, 1, "h"@);
    lemma_number_reads_back(s.w as nat, u32::MAX as nat);
    lemma_number_reads_back(s.h as nat, u32::MAX as nat);
}

proof fn lemma_tile_reads_back(t: TileWindow)
    ensures
        tile_in(tile_json(t)) == Ok::<TileWindow, Problem>(t),
{
    lemma_keys_differ();
    let fields = tile_json(t)->Object_0;
    lemma_first(fields, 0, "id"@);
    lemma_first(fields, 1, "rect"@);
    lemma_number_reads_back(t.id as nat, u64::MAX as nat);
    lemma_rect_reads_back(t.rect);
    assert(rect_in(tile_json(t), "rect"@) == Ok::<Rect, Problem>(t.rect));
}

proof fn lemma_tiles_read_back(tiles: Seq<TileWindow>)
    ensures
        tiles_in(tiles_json(tiles)) == Ok::<Seq<TileWindow>, Problem>(tiles),
    decreases tiles.len(),
{
    let items = tiles_json(tiles);
    if tiles.len() > 0 {
        lemma_tiles_read_back(tiles.drop_last());
        assert(items.drop_last() =~= tiles_json(tiles.drop_last()));
        lemma_tile_reads_back(tiles.last());
        assert(tiles.drop_last().push(tiles.last()) =~= tiles);
    } else {
        assert(tiles =~= seq![]);
    }
}

proof fn lemma_hello_reads_back(m: ServerNote)
    requires
        m is Hello,
    ensures
        note_in(server_json(m)) == Ok::<ServerNote, Problem>(m),
{
    lemma_keys_differ();
    lemma_types_differ();
    let v = server_json(m);
    let fields = v->Object_0;
    lemma_first(fields, 0, "type"@);
    if let ServerNote::Hello { protocol, vds } = m {
        lemma_first(fields, 1, "protocol"@);
        lemma_first(fields, 2, "vdsSize"@);
        lemma_number_reads_back(protocol as nat, u32::MAX as nat);
        lemma_size_reads_back(vds);
        assert(size_in(v, "vdsSize"@) == Ok::<Size, Problem>(vds));
    }
}

proof fn lemma_created_reads_back(m: ServerNote)
    requires
        m is WindowCreated,
    ensures
        note_in(server_json(m)) == Ok::<ServerNote, Problem>(m),
{
    lemma_keys_differ();
    lemma_types_differ();
    let v = server_json(m);
    let fields = v->Object_0;
    lemma_first(fields, 0, "type"@);
    if let ServerNote::WindowCreated { id, rect, title, kind } = m {
        lemma_first(fields, 1, "id"@);
        lemma_first(fields, 2, "rect"@);
        lemma_first(fields, 3, "title"@);
        lemma_first(fields, 4, "kind"@);
        lemma_number_reads_back(id as nat, u64::MAX as nat);
        lemma_rect_reads_back(rect);
        assert(rect_in(v, "rect"@) == Ok::<Rect, Problem>(rect));
        lemma_kinds_read_back(kind);
    }
}

proof fn lemma_moved_reads_back(m: ServerNote)
    requires
        m is WindowMoved,
    ensures
        note_in(server_json(m)) == Ok::<ServerNote, Problem>(m),
{
    lemma_keys_differ();
    lemma_types_differ();
    let v = server_json(m);
    let fields = v->Object_0;
    lemma_first(fields, 0, "type"@);
    if let ServerNote::WindowMoved { id, rect } = m {
        lemma_first(fields, 1, "id"@);
        lemma_first(fields, 2, "rect"@);
        lemma_number_reads_back(id as nat, u64::MAX as nat);
        lemma_rect_reads_back(rect);
        assert(rect_in(v, "rect"@) == Ok::<Rect, Problem>(rect));
    }
}

proof fn lemma_destroyed_reads_back(m: ServerNote)
    requires
        m is WindowDestroyed,
    ensures
        note_in(server_json(m)) == Ok::<ServerNote, Problem>(m),
{
    lemma_keys_differ();
    lemma_types_differ();
    let v = server_json(m);
    let fields = v->Object_0;
    lemma_first(fields, 0, "type"@);
    if let ServerNote::WindowDestroyed { id } = m {
        lemma_first(fields, 1, "id"@);
        lemma_number_reads_back(id as nat, u64::MAX as nat);
    }
}

proof fn lemma_title_reads_back(m: ServerNote)
    requires
        m is WindowTitle,
    ensures
        note_in(server_json(m)) == Ok::<ServerNote, Problem>(m),
{
    lemma_keys_differ();
    lemma_types_differ();
    let v = server_json(m);
    let fields = v->Object_0;
    lemma_first(fields, 0, "type"@);
    if let ServerNote::WindowTitle { id, title } = m {
        lemma_first(fields, 1, "id"@);
        lemma_first(fields, 2, "title"@);
        lemma_number_reads_back(id as nat, u64::MAX as nat);
    }
}

proof fn lemma_focused_reads_back(m: ServerNote)
    requires
        m is WindowFocused,
    ensures
        note_in(server_json(m)) == Ok::<ServerNote, Problem>(m),
{
    lemma_keys_differ();
    lemma_types_differ();
    let v = server_json(m);
    let fields = v->Object_0;
    lemma_first(fields, 0, "type"@);
    if let ServerNote::WindowFocused { id } = m {
        lemma_first(fields, 1, "id"@);
        lemma_number_reads_back(id as nat, u64::MAX as nat);
    }
}

proof fn lemma_layout_reads_back(m: ServerNote)
    requires
        m is TileLayout,
    ensures
        note_in(server_json(m)) == Ok::<ServerNote, Problem>(m),
{
    lemma_keys_differ();
    lemma_types_differ();
    let v = server_json(m);
    let fields = v->Object_0;
    lemma_first(fields, 0, "type"@);
    if let ServerNote::TileLayout { windows, display } = m {
        lemma_first(fields, 1, "windows"@);
        lemma_first(fields, 2, "displaySize"@);
        lemma_tiles_read_back(windows);
        lemma_size_reads_back(display);
        assert(size_in(v, "displaySize"@) == Ok::<Size, Problem>(display));
    }
}

proof fn lemma_error_reads_back(m: ServerNote)
    requires
        m is Error,
    ensures
        note_in(server_json(m)) == Ok::<ServerNote, Problem>(m),
{
    lemma_keys_differ();
    lemma_types_differ();
    let v = server_json(m);
    let fields = v->Object_0;
    lemma_first(fields, 0, "type"@);
    if let ServerNote::Error { code, message } = m {
        lemma_first(fields, 1, "code"@);
        lemma_first(fields, 2, "message"@);
        lemma_number_reads_back(code as nat, u32::MAX as nat);
    }
}

proof fn lemma_object_reads_back(m: ServerNote)
    ensures
        note_in(server_json(m)) == Ok::<ServerNote, Problem>(m),
{
    match m {
        ServerNote::Hello { .. } => lemma_hello_reads_back(m),
        ServerNote::WindowCreated { .. } => lemma_created_reads_back(m),
        ServerNote::WindowMoved { .. } => lemma_moved_reads_back(m),
        ServerNote::WindowDestroyed { .. } => lemma_destroyed_reads_back(m),
        ServerNote::WindowTitle { .. } => lemma_title_reads_back(m),
        ServerNote::WindowFocused { .. } => lemma_focused_reads_back(m),
        ServerNote::TileLayout { .. } => lemma_layout_reads_back(m),
        ServerNote::Error { .. } => lemma_error_reads_back(m),
    }
}

proof fn lemma_rect_is_sound(r: Rect)
    ensures
        numbers_are_sound(rect_json(r)),
{
    lemma_numbers_sound(r.x as int);
    lemma_numbers_sound(r.y as int);
    lemma_numbers_sound(r.w as int);
    lemma_numbers_sound(r.h as int);
    lemma_object_is_sound(rect_json(r)->Object_0);
}

proof fn lemma_size_is_sound(s: Size)
    ensures
        numbers_are_sound(size_json(s)),
{
    lemma_numbers_sound(s.w as int);
    lemma_numbers_sound(s.h as int);
    lemma_object_is_sound(size_json(s)->Object_0);
}

proof fn lemma_tiles_are_sound(tiles: Seq<TileWindow>)
    ensures
        numbers_are_sound(Json::Array(tiles_json(tiles))),
{
    assert forall|i: int| 0 <= i < tiles.len() implies numbers_are_sound(
        #[trigger] tiles_json(tiles)[i],
    ) by {
        let t = tiles[i];
        lemma_numbers_sound(t.id as int);
        lemma_rect_is_sound(t.rect);
        lemma_object_is_sound(tile_json(t)->Object_0);
    }
}

proof fn lemma_message_object_is_sound(m: ServerNote)
    ensures
        numbers_are_sound(server_json(m)),
{
    match m {
        ServerNote::Hello { protocol, vds } => {
            lemma_numbers_sound(protocol as int);
            lemma_size_is_sound(vds);
        },
        ServerNote::WindowCreated { id, rect, title, kind } => {
            lemma_numbers_sound(id as int);
            lemma_rect_is_sound(rect);
        },
        ServerNote::WindowMoved { id, rect } => {
            lemma_numbers_sound(id as int);
            lemma_rect_is_sound(rect);
        },
        ServerNote::WindowDestroyed { id } => {
            lemma_numbers_sound(id as int);
        },
        ServerNote::WindowTitle { id, title } => {
            lemma_numbers_sound(id as int);
        },
        ServerNote::WindowFocused { id } => {
            lemma_numbers_sound(id as int);
        },
        ServerNote::TileLayout { windows, display } => {
            lemma_tiles_are_sound(windows);
            lemma_size_is_sound(display);
        },
        ServerNote::Error { code, message } => {
            lemma_numbers_sound(code as int);
        },
    }
    lemma_object_is_sound(server_json(m)->Object_0);
}

/// Whatever the host says, the client understands it: the payload of every message
/// reads back as the message.
pub proof fn law_server_messages_read_back(m: ServerNote)
    ensures
        note_of(encode_utf8(json_text(server_json(m)))) == Ok::<ServerNote, Problem>(m),
{
    lemma_message_object_is_sound(m);
    lemma_value_payload_reads_back(server_json(m));
    lemma_object_reads_back(m);
}

} // verus!
