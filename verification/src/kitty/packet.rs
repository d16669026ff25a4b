//! What a terminal reads in the control data of a request: keys, each with its value.

use vstd::prelude::*;
use vstd::utf8::encode_utf8;

use crate::kitty::action::Action;
use crate::kitty::delete::DeleteConfig;
use crate::kitty::delete::WhichToDelete;
use crate::kitty::display::id_value;
use crate::kitty::display::lemma_config_fields;
use crate::kitty::display::DisplayConfig;
use crate::kitty::display::DisplayLocation;
use crate::kitty::format::lemma_int_text_plain;
use crate::kitty::format::lemma_params_push;
use crate::kitty::format::param;
use crate::kitty::format::params;
use crate::kitty::format::PixelFormat;
use crate::kitty::id::ImageId;
use crate::kitty::id::NumberOrId;
use crate::kitty::id::PlacementId;
use crate::kitty::image::Image;
use crate::kitty::image::Verbosity;
use crate::text::digits;
use crate::text::int_text;
use crate::text::is_digit;
use crate::text::lemma_digits_are_digits;
use crate::text::lemma_encode_concat;
use crate::text::lemma_pieces_concat;
use crate::text::lemma_pieces_single;
use crate::text::pieces;
use crate::text::text;

verus! {

/// The value that a key has in control data that was cut at its commas: that of its last entry.
pub open spec fn value_in(entries: Seq<Seq<char>>, key: char) -> Option<Seq<char>>
    decreases entries.len(),
{
    if entries.len() == 0 {
        None
    } else {
        let last = entries.last();
        if last.len() >= 2 && last[0] == key && last[1] == '=' {
            Some(last.skip(2))
        } else {
            value_in(entries.drop_last(), key)
        }
    }
}

/// The value that control data says of a key.
pub open spec fn said(control: Seq<char>, key: char) -> Option<Seq<char>> {
    value_in(pieces(control, ','), key)
}

/// Whether control data gives a number for a key; zero is left unsaid.
pub open spec fn says(control: Seq<char>, key: char, value: int) -> bool {
    said(control, key) == (if value == 0 {
        None
    } else {
        Some(int_text(value))
    })
}

/// Whether some bytes are a request with this control data, and what follows it.
pub open spec fn is_packet(bytes: Seq<u8>, control: Seq<char>, rest: Seq<u8>) -> bool {
    bytes == text("\x1b_G") + encode_utf8(control) + rest
}

/// One more entry, behind a comma.
pub open spec fn entry(key: char, value: Seq<char>) -> Seq<char> {
    seq![',', key, '='] + value
}

/// One more entry gives its key a value, and changes nothing for other keys.
proof fn lemma_said_entry(control: Seq<char>, key: char, value: Seq<char>)
    requires
        key != ',',
        !value.contains(','),
    ensures
        forall|k: char| #[trigger]
            said(control + entry(key, value), k) == (if k == key {
                Some(value)
            } else {
                said(control, k)
            }),
{
    let piece = seq![key, '='] + value;
    let all = control + entry(key, value);
    assert(!piece.contains(',')) by {
        if piece.contains(',') {
            let i = choose|i: int| 0 <= i < piece.len() && piece[i] == ',';
            assert(i >= 2);
            assert(value[i - 2] == ',');
        }
    }
    assert(all =~= control.push(',') + piece);
    lemma_pieces_concat(control, piece, ',');
    lemma_pieces_single(piece, ',');
    let before = pieces(control, ',');
    let after = pieces(all, ',');
    assert(after =~= before.push(piece));
    assert(after.drop_last() =~= before);
    assert(piece.skip(2) =~= value);
    assert forall|k: char| #[trigger]
        said(all, k) == (if k == key {
            Some(value)
        } else {
            said(control, k)
        }) by {
        assert(after.last() == piece);
    }
}

/// Control data of one entry says that, and nothing else.
proof fn lemma_said_first(control: Seq<char>, key: char, value: Seq<char>)
    requires
        control == seq![key, '='] + value,
        key != ',',
        !value.contains(','),
    ensures
        forall|k: char| #[trigger]
            said(control, k) == (if k == key {
                Some(value)
            } else {
                None
            }),
{
    assert(!control.contains(',')) by {
        if control.contains(',') {
            let i = choose|i: int| 0 <= i < control.len() && control[i] == ',';
            assert(i >= 2);
            assert(value[i - 2] == ',');
        }
    }
    lemma_pieces_single(control, ',');
    let all = pieces(control, ',');
    assert(all.drop_last() =~= Seq::<Seq<char>>::empty());
    assert(all.last() == control);
    assert(control.skip(2) =~= value);
    assert forall|k: char| #[trigger]
        said(control, k) == (if k == key {
            Some(value)
        } else {
            None
        }) by {
        assert(value_in(all.drop_last(), k) is None);
    }
}

/// A number holds no comma.
proof fn lemma_number_plain(n: nat)
    ensures
        !digits(n).contains(','),
{
    lemma_digits_are_digits(n);
    if digits(n).contains(',') {
        let i = choose|i: int| 0 <= i < digits(n).len() && digits(n)[i] == ',';
        assert(is_digit(digits(n)[i]));
    }
}

/// The control data that parameters are written as.
pub open spec fn fields_text(fields: Seq<(char, int)>) -> Seq<char>
    decreases fields.len(),
{
    if fields.len() == 0 {
        Seq::empty()
    } else {
        let before = fields_text(fields.drop_last());
        if fields.last().1 == 0 {
            before
        } else {
            before + entry(fields.last().0, int_text(fields.last().1))
        }
    }
}

/// The value of a key among parameters: that of the last one that is not zero.
pub open spec fn field_value(fields: Seq<(char, int)>, key: char) -> int
    decreases fields.len(),
{
    if fields.len() == 0 {
        0
    } else if fields.last().0 == key && fields.last().1 != 0 {
        fields.last().1
    } else {
        field_value(fields.drop_last(), key)
    }
}

/// Parameters are written as their control data.
proof fn lemma_fields_text(fields: Seq<(char, int)>)
    ensures
        params(fields) == encode_utf8(fields_text(fields)),
    decreases fields.len(),
{
    if fields.len() == 0 {
        assert(encode_utf8(Seq::<char>::empty()) =~= Seq::<u8>::empty());
    } else {
        lemma_fields_text(fields.drop_last());
        let before = fields_text(fields.drop_last());
        let (key, value) = fields.last();
        if value == 0 {
            assert(params(fields) =~= params(fields.drop_last()));
        } else {
            lemma_encode_concat(before, entry(key, int_text(value)));
        }
    }
}

/// Behind other control data, parameters say their values, and nothing of other keys.
proof fn lemma_said_fields(control: Seq<char>, fields: Seq<(char, int)>, k: char)
    requires
        forall|i: int| 0 <= i < fields.len() ==> (#[trigger] fields[i]).0 != ',',
    ensures
        said(control + fields_text(fields), k) == (if field_value(fields, k) == 0 {
            said(control, k)
        } else {
            Some(int_text(field_value(fields, k)))
        }),
    decreases fields.len(),
{
    if fields.len() == 0 {
        assert(control + fields_text(fields) =~= control);
    } else {
        let front = fields.drop_last();
        assert forall|i: int| 0 <= i < front.len() implies (#[trigger] front[i]).0 != ',' by {
            assert(front[i] == fields[i]);
        }
        lemma_said_fields(control, front, k);
        let (key, value) = fields.last();
        assert(fields[fields.len() - 1].0 != ',');
        if value != 0 {
            lemma_int_text_plain(value);
            assert(control + fields_text(fields) =~= control + fields_text(front) + entry(
                key,
                int_text(value),
            ));
            lemma_said_entry(control + fields_text(front), key, int_text(value));
        }
    }
}

/// A key with one entry among parameters has its value.
proof fn lemma_field_value(fields: Seq<(char, int)>, j: int)
    requires
        0 <= j < fields.len(),
        forall|i: int| 0 <= i < fields.len() && i != j ==> (#[trigger] fields[i]).0 != fields[j].0,
    ensures
        field_value(fields, fields[j].0) == fields[j].1,
    decreases fields.len(),
{
    let key = fields[j].0;
    let front = fields.drop_last();
    if j == fields.len() - 1 {
        if fields[j].1 == 0 {
            assert forall|i: int| 0 <= i < front.len() implies (#[trigger] front[i]).0 != key by {
                assert(front[i] == fields[i]);
            }
            lemma_no_field(front, key);
        }
    } else {
        assert(fields[fields.len() - 1].0 != key);
        assert forall|i: int| 0 <= i < front.len() && i != j implies (#[trigger] front[i]).0
            != front[j].0 by {
            assert(front[i] == fields[i]);
        }
        lemma_field_value(front, j);
    }
}

/// A key that no parameter has has no value.
proof fn lemma_no_field(fields: Seq<(char, int)>, key: char)
    requires
        forall|i: int| 0 <= i < fields.len() ==> (#[trigger] fields[i]).0 != key,
    ensures
        field_value(fields, key) == 0,
    decreases fields.len(),
{
    if fields.len() > 0 {
        let front = fields.drop_last();
        assert(fields[fields.len() - 1].0 != key);
        assert forall|i: int| 0 <= i < front.len() implies (#[trigger] front[i]).0 != key by {
            assert(front[i] == fields[i]);
        }
        lemma_no_field(front, key);
    }
}

/// Texts one behind the other, as bytes: six of them, with a break behind the first.
proof fn lemma_join_six(
    t0: Seq<char>,
    t1: Seq<char>,
    t2: Seq<char>,
    t3: Seq<char>,
    t4: Seq<char>,
    t5: Seq<char>,
    z: Seq<u8>,
)
    ensures
        encode_utf8(t0) + (encode_utf8(t1) + encode_utf8(t2) + encode_utf8(t3) + encode_utf8(t4)
            + encode_utf8(t5) + z) == encode_utf8(t0 + t1 + t2 + t3 + t4 + t5) + z,
{
    lemma_encode_concat(t0, t1);
    lemma_encode_concat(t0 + t1, t2);
    lemma_encode_concat(t0 + t1 + t2, t3);
    lemma_encode_concat(t0 + t1 + t2 + t3, t4);
    lemma_encode_concat(t0 + t1 + t2 + t3 + t4, t5);
    lemma_regroup_six(
        encode_utf8(t0),
        encode_utf8(t1),
        encode_utf8(t2),
        encode_utf8(t3),
        encode_utf8(t4),
        encode_utf8(t5),
        z,
    );
}

/// Six pieces with a break behind the first are the same pieces without it.
proof fn lemma_regroup_six(
    a: Seq<u8>,
    b: Seq<u8>,
    c: Seq<u8>,
    d: Seq<u8>,
    e: Seq<u8>,
    f: Seq<u8>,
    z: Seq<u8>,
)
    ensures
        a + (b + c + d + e + f + z) == a + b + c + d + e + f + z,
{
    assert(a + (b + c + d + e + f + z) =~= a + b + c + d + e + f + z);
}

/// Texts one behind the other, as bytes, in the groups in which an image is written.
proof fn lemma_join_image(
    t0: Seq<char>,
    t1: Seq<char>,
    t2: Seq<char>,
    t3: Seq<char>,
    t4: Seq<char>,
    t5: Seq<char>,
    t6: Seq<char>,
    m: Seq<u8>,
    z: Seq<u8>,
)
    ensures
        encode_utf8(t0) + (encode_utf8(t1) + (encode_utf8(t2) + encode_utf8(t3) + encode_utf8(t4)
            + Seq::<u8>::empty() + encode_utf8(t5) + encode_utf8(t6) + m + z)) == encode_utf8(
            t0 + t1 + t2 + t3 + t4 + t5 + t6,
        ) + (m + z),
{
    lemma_encode_concat(t0, t1);
    lemma_encode_concat(t0 + t1, t2);
    lemma_encode_concat(t0 + t1 + t2, t3);
    lemma_encode_concat(t0 + t1 + t2 + t3, t4);
    lemma_encode_concat(t0 + t1 + t2 + t3 + t4, t5);
    lemma_encode_concat(t0 + t1 + t2 + t3 + t4 + t5, t6);
    lemma_regroup_image(
        encode_utf8(t0),
        encode_utf8(t1),
        encode_utf8(t2),
        encode_utf8(t3),
        encode_utf8(t4),
        encode_utf8(t5),
        encode_utf8(t6),
        m,
        z,
    );
}

/// The groups in which an image is written, one behind the other.
proof fn lemma_regroup_image(
    a: Seq<u8>,
    b: Seq<u8>,
    c: Seq<u8>,
    d: Seq<u8>,
    e: Seq<u8>,
    f: Seq<u8>,
    g: Seq<u8>,
    m: Seq<u8>,
    z: Seq<u8>,
)
    ensures
        a + (b + (c + d + e + Seq::<u8>::empty() + f + g + m + z)) == a + b + c + d + e + f + g + (m
            + z),
{
    assert(a + (b + (c + d + e + Seq::<u8>::empty() + f + g + m + z)) =~= a + b + c + d + e + f + g
        + (m + z));
}

/// Texts one behind the other, as bytes, in the groups in which a deletion is written.
proof fn lemma_join_deletion(
    t0: Seq<char>,
    t1: Seq<char>,
    t2: Seq<char>,
    t3: Seq<char>,
    t4: Seq<char>,
    t5: Seq<char>,
    t6: Seq<char>,
    t7: Seq<char>,
    z: Seq<u8>,
)
    ensures
        encode_utf8(t0) + (encode_utf8(t1) + (encode_utf8(t2) + (encode_utf8(t3) + encode_utf8(t4)
            + encode_utf8(t5) + (encode_utf8(t6) + encode_utf8(t7))) + z)) == encode_utf8(
            t0 + t1 + t2 + t3 + t4 + t5 + t6 + t7,
        ) + z,
        encode_utf8(t0) + (encode_utf8(t1) + (encode_utf8(t2) + (encode_utf8(t3) + encode_utf8(t4)
            + encode_utf8(t5) + encode_utf8(t6) + encode_utf8(t7)) + z)) == encode_utf8(
            t0 + t1 + t2 + t3 + t4 + t5 + t6 + t7,
        ) + z,
        encode_utf8(t0) + (encode_utf8(t1) + (encode_utf8(t2) + (encode_utf8(t3) + encode_utf8(t4)
            + encode_utf8(t5) + Seq::<u8>::empty()) + z)) == encode_utf8(
            t0 + t1 + t2 + t3 + t4 + t5,
        ) + z,
{
    lemma_encode_concat(t0, t1);
    lemma_encode_concat(t0 + t1, t2);
    lemma_encode_concat(t0 + t1 + t2, t3);
    lemma_encode_concat(t0 + t1 + t2 + t3, t4);
    lemma_encode_concat(t0 + t1 + t2 + t3 + t4, t5);
    lemma_encode_concat(t0 + t1 + t2 + t3 + t4 + t5, t6);
    lemma_encode_concat(t0 + t1 + t2 + t3 + t4 + t5 + t6, t7);
    lemma_regroup_deletion(
        encode_utf8(t0),
        encode_utf8(t1),
        encode_utf8(t2),
        encode_utf8(t3),
        encode_utf8(t4),
        encode_utf8(t5),
        encode_utf8(t6),
        encode_utf8(t7),
        z,
    );
}

/// The groups in which a deletion is written, one behind the other.
proof fn lemma_regroup_deletion(
    a: Seq<u8>,
    b: Seq<u8>,
    c: Seq<u8>,
    d: Seq<u8>,
    e: Seq<u8>,
    f: Seq<u8>,
    g: Seq<u8>,
    h: Seq<u8>,
    z: Seq<u8>,
)
    ensures
        a + (b + (c + (d + e + f + (g + h)) + z)) == a + b + c + d + e + f + g + h + z,
        a + (b + (c + (d + e + f + g + h) + z)) == a + b + c + d + e + f + g + h + z,
        a + (b + (c + (d + e + f + Seq::<u8>::empty()) + z)) == a + b + c + d + e + f + z,
{
    assert(a + (b + (c + (d + e + f + (g + h)) + z)) =~= a + b + c + d + e + f + g + h + z);
    assert(a + (b + (c + (d + e + f + g + h) + z)) =~= a + b + c + d + e + f + g + h + z);
    assert(a + (b + (c + (d + e + f + Seq::<u8>::empty()) + z)) =~= a + b + c + d + e + f + z);
}

/// A request is read as its mark and its control data.
proof fn lemma_marked(bytes: Seq<u8>, all: Seq<char>, control: Seq<char>, rest: Seq<u8>)
    requires
        bytes == encode_utf8(all) + rest,
        all == "\x1b_G"@ + control,
    ensures
        is_packet(bytes, control, rest),
{
    lemma_encode_concat("\x1b_G"@, control);
}

/// Whether control data says where an image is shown: the part of it in pixels, its offset inside
/// the first cell, its size in cells, how high it lies, and its offset from its parent.
pub open spec fn says_location(control: Seq<char>, l: DisplayLocation) -> bool {
    &&& says(control, 'x', l.x as int)
    &&& says(control, 'y', l.y as int)
    &&& says(control, 'w', l.width as int)
    &&& says(control, 'h', l.height as int)
    &&& says(control, 'X', l.x_offset as int)
    &&& says(control, 'Y', l.y_offset as int)
    &&& says(control, 'c', l.columns as int)
    &&& says(control, 'r', l.rows as int)
    &&& says(control, 'z', l.z_index as int)
    &&& says(control, 'H', l.horizontal_offset as int)
    &&& says(control, 'V', l.vertical_offset as int)
}

/// Whether control data says how an image is shown.
pub open spec fn says_config(control: Seq<char>, config: DisplayConfig) -> bool {
    &&& says_location(control, config.location)
    &&& says(
        control,
        'C',
        if config.cursor_movement is DontMove {
            1
        } else {
            0
        },
    )
    &&& says(
        control,
        'U',
        if config.create_virtual_placement {
            1
        } else {
            0
        },
    )
    &&& says(control, 'P', id_value(config.parent_id))
    &&& says(control, 'Q', id_value(config.parent_placement))
}

/// Whether a key is one of a configuration.
pub open spec fn is_config_key(key: char) -> bool {
    ||| key == 'x' || key == 'y' || key == 'w' || key == 'h' || key == 'X' || key == 'Y'
    ||| key == 'c' || key == 'r' || key == 'z' || key == 'H' || key == 'V'
    ||| key == 'C' || key == 'U' || key == 'P' || key == 'Q'
}

/// The keys of a configuration, in order.
proof fn lemma_config_field_keys(config: DisplayConfig)
    ensures
        ({
            let f = config.fields();
            &&& f.len() == 15
            &&& f[0] == ('x', config.location.x as int)
            &&& f[1] == ('y', config.location.y as int)
            &&& f[2] == ('w', config.location.width as int)
            &&& f[3] == ('h', config.location.height as int)
            &&& f[4] == ('X', config.location.x_offset as int)
            &&& f[5] == ('Y', config.location.y_offset as int)
            &&& f[6] == ('c', config.location.columns as int)
            &&& f[7] == ('r', config.location.rows as int)
            &&& f[8] == ('z', config.location.z_index as int)
            &&& f[9] == ('H', config.location.horizontal_offset as int)
            &&& f[10] == ('V', config.location.vertical_offset as int)
            &&& f[11].0 == 'C'
            &&& f[11].1 == (if config.cursor_movement is DontMove {
                1int
            } else {
                0
            })
            &&& f[12].0 == 'U'
            &&& f[12].1 == (if config.create_virtual_placement {
                1int
            } else {
                0
            })
            &&& f[13] == ('P', id_value(config.parent_id))
            &&& f[14] == ('Q', id_value(config.parent_placement))
        }),
{
}

/// Behind other control data, a configuration is said in full, and nothing else is changed.
#[verifier::rlimit(40)]
proof fn lemma_says_config(control: Seq<char>, config: DisplayConfig)
    requires
        forall|k: char| is_config_key(k) ==> #[trigger] said(control, k) is None,
    ensures
        says_config(control + fields_text(config.fields()), config),
        forall|k: char|
            !is_config_key(k) ==> #[trigger] said(control + fields_text(config.fields()), k)
                == said(control, k),
{
    let f = config.fields();
    let all = control + fields_text(f);
    lemma_config_field_keys(config);
    assert forall|j: int| 0 <= j < 15 implies says(all, (#[trigger] f[j]).0, f[j].1)
        && is_config_key(f[j].0) by {
        lemma_field_value(f, j);
        lemma_said_fields(control, f, f[j].0);
        assert(is_config_key(f[j].0));
    }
    assert(says(all, f[0].0, f[0].1) && says(all, f[1].0, f[1].1) && says(all, f[2].0, f[2].1));
    assert(says(all, f[3].0, f[3].1) && says(all, f[4].0, f[4].1) && says(all, f[5].0, f[5].1));
    assert(says(all, f[6].0, f[6].1) && says(all, f[7].0, f[7].1) && says(all, f[8].0, f[8].1));
    assert(says(all, f[9].0, f[9].1) && says(all, f[10].0, f[10].1));
    assert(says(all, f[11].0, f[11].1) && says(all, f[12].0, f[12].1));
    assert(says(all, f[13].0, f[13].1) && says(all, f[14].0, f[14].1));
    assert forall|k: char| !is_config_key(k) implies #[trigger] said(all, k) == said(control, k) by {
        assert forall|i: int| 0 <= i < f.len() implies (#[trigger] f[i]).0 != k by {
            assert(is_config_key(f[i].0));
        }
        lemma_no_field(f, k);
        lemma_said_fields(control, f, k);
    }
}

/// The control data of a request to show an image.
spec fn display_control(id: Seq<char>, pid: Seq<char>, config: DisplayConfig) -> Seq<char> {
    seq!['a', '=', 'p'] + entry('i', id) + entry('p', pid) + fields_text(config.fields())
}

/// What the control data of a request to show an image says.
proof fn lemma_display_is_said(m: nat, n: nat, config: DisplayConfig)
    ensures
        ({
            let control = display_control(digits(m), digits(n), config);
            &&& said(control, 'a') == Some(seq!['p'])
            &&& said(control, 'i') == Some(digits(m))
            &&& said(control, 'p') == Some(digits(n))
            &&& says_config(control, config)
        }),
{
    let c1 = seq!['a', '=', 'p'];
    let c2 = c1 + entry('i', digits(m));
    let c3 = c2 + entry('p', digits(n));
    lemma_number_plain(m);
    lemma_number_plain(n);
    assert(c1 =~= seq!['a', '='] + seq!['p']);
    lemma_said_first(c1, 'a', seq!['p']);
    lemma_said_entry(c1, 'i', digits(m));
    lemma_said_entry(c2, 'p', digits(n));
    assert forall|k: char| is_config_key(k) implies #[trigger] said(c3, k) is None by {
        assert(said(c2, k) == said(c1, k));
    }
    assert(said(c2, 'a') == said(c1, 'a') && said(c3, 'a') == said(c2, 'a'));
    assert(said(c3, 'i') == said(c2, 'i'));
    lemma_says_config(c3, config);
}

/// A request to show an image is its control data.
#[verifier::rlimit(60)]
proof fn lemma_display_packet(
    image_id: ImageId,
    placement_id: PlacementId,
    config: DisplayConfig,
    verbosity: Verbosity,
)
    requires
        config.has_ids(),
    ensures
        is_packet(
            (Action::Display { image_id, placement_id, config }).bytes(verbosity),
            display_control(digits(image_id@ as nat), digits(placement_id@ as nat), config),
            text("\x1b\\"),
        ),
{
    let id = digits(image_id@ as nat);
    let pid = digits(placement_id@ as nat);
    let f = fields_text(config.fields());
    lemma_config_fields(config);
    lemma_fields_text(config.fields());
    lemma_join_six("\x1b_Ga="@, "p,i="@, id, ",p="@, pid, f, text("\x1b\\"));
    let all = "\x1b_Ga="@ + "p,i="@ + id + ",p="@ + pid + f;
    let control = display_control(id, pid, config);
    assert(all == "\x1b_G"@ + control) by {
        reveal_strlit("\x1b_Ga=");
        reveal_strlit("\x1b_G");
        reveal_strlit("p,i=");
        reveal_strlit(",p=");
        assert(all =~= "\x1b_G"@ + control);
    }
    lemma_marked(
        (Action::Display { image_id, placement_id, config }).bytes(verbosity),
        all,
        control,
        text("\x1b\\"),
    );
}

/// A request to show an image names the image and the placement and says all of where and how it
/// is shown.
pub proof fn lemma_display_is_read(
    image_id: ImageId,
    placement_id: PlacementId,
    config: DisplayConfig,
    verbosity: Verbosity,
)
    requires
        config.has_ids(),
    ensures
        exists|control: Seq<char>|
            {
                &&& #[trigger] is_packet(
                    (Action::Display { image_id, placement_id, config }).bytes(verbosity),
                    control,
                    text("\x1b\\"),
                )
                &&& said(control, 'a') == Some(seq!['p'])
                &&& said(control, 'i') == Some(digits(image_id@ as nat))
                &&& said(control, 'p') == Some(digits(placement_id@ as nat))
                &&& says_config(control, config)
            },
{
    lemma_display_packet(image_id, placement_id, config, verbosity);
    lemma_display_is_said(image_id@ as nat, placement_id@ as nat, config);
}

/// Whether control data says how pixels are laid out: the bits of each, and the size of the
/// image.
pub open spec fn says_format(control: Seq<char>, format: PixelFormat) -> bool {
    let d = format.dimensions();
    &&& says(control, 's', d.width as int)
    &&& says(control, 'v', d.height as int)
    &&& match format {
        PixelFormat::Rgba32(_) => says(control, 'f', 32),
        PixelFormat::Rgb24(_) => if d.width == 0 && d.height == 0 {
            says(control, 'f', 0)
        } else {
            says(control, 'f', 24)
        },
    }
}

/// The parameters of a format, in order.
spec fn format_fields(format: PixelFormat) -> Seq<(char, int)> {
    let bits: int = if format == PixelFormat::spec_default() {
        0
    } else if format is Rgb24 {
        24
    } else {
        32
    };
    Seq::empty().push(('f', bits)).push(('s', format.dimensions().width as int)).push(
        ('v', format.dimensions().height as int),
    )
}

/// A format is written as its parameters.
#[verifier::rlimit(40)]
proof fn lemma_format_fields(format: PixelFormat)
    ensures
        format.bytes() == params(format_fields(format)),
{
    let f = format_fields(format);
    let d = format.dimensions();
    let f0 = Seq::<(char, int)>::empty();
    let f1 = f0.push(f[0]);
    let f2 = f1.push(f[1]);
    lemma_params_push(f0, 'f', f[0].1);
    lemma_params_push(f1, 's', f[1].1);
    lemma_params_push(f2, 'v', f[2].1);
    reveal_strlit(",f=");
    reveal_strlit("24");
    reveal_strlit("32");
    lemma_encode_concat(",f="@, "24"@);
    lemma_encode_concat(",f="@, "32"@);
    reveal_with_fuel(digits, 3);
    assert(int_text(24) =~= "24"@);
    assert(int_text(32) =~= "32"@);
    assert(",f="@ + "24"@ =~= seq![',', 'f', '='] + int_text(24));
    assert(",f="@ + "32"@ =~= seq![',', 'f', '='] + int_text(32));
    assert(params(f0) =~= Seq::<u8>::empty());
    assert(format.bytes() =~= params(f));
}

/// Behind other control data, a format is said in full, and nothing else is changed.
proof fn lemma_says_format(control: Seq<char>, format: PixelFormat)
    requires
        said(control, 'f') is None,
        said(control, 's') is None,
        said(control, 'v') is None,
    ensures
        says_format(control + fields_text(format_fields(format)), format),
        forall|k: char|
            k != 'f' && k != 's' && k != 'v' ==> #[trigger] said(
                control + fields_text(format_fields(format)),
                k,
            ) == said(control, k),
{
    let f = format_fields(format);
    let all = control + fields_text(f);
    assert(f.len() == 3 && f[0].0 == 'f' && f[1].0 == 's' && f[2].0 == 'v');
    lemma_field_value(f, 0);
    lemma_field_value(f, 1);
    lemma_field_value(f, 2);
    lemma_said_fields(control, f, 'f');
    lemma_said_fields(control, f, 's');
    lemma_said_fields(control, f, 'v');
    assert forall|k: char| k != 'f' && k != 's' && k != 'v' implies #[trigger] said(all, k) == said(
        control,
        k,
    ) by {
        lemma_no_field(f, k);
        lemma_said_fields(control, f, k);
    }
}

/// Whether control data names an image: by its identifier or by a number, and not by both.
pub open spec fn names(control: Seq<char>, image: NumberOrId) -> bool {
    match image {
        NumberOrId::Id(id) => said(control, 'i') == Some(digits(id@ as nat)) && said(
            control,
            'I',
        ) is None,
        NumberOrId::Number(number) => said(control, 'I') == Some(digits(number@ as nat)) && said(
            control,
            'i',
        ) is None,
    }
}

/// What control data says of a request that sends an image.
spec fn image_control(
    action: char,
    image: Image,
    placement_id: Option<PlacementId>,
    config: Option<DisplayConfig>,
) -> Seq<char> {
    let start = seq!['a', '=', action] + (match image.num_or_id {
        NumberOrId::Id(id) => entry('i', digits(id@ as nat)),
        NumberOrId::Number(number) => entry('I', digits(number@ as nat)),
    }) + fields_text(Seq::empty().push(('p', id_value(placement_id))));
    (match config {
        Some(config) => start + fields_text(config.fields()),
        None => start,
    }) + fields_text(format_fields(image.format))
}

/// What a request that sends an image says of it.
#[verifier::rlimit(40)]
proof fn lemma_image_is_said(
    action: char,
    image: Image,
    placement_id: Option<PlacementId>,
    config: Option<DisplayConfig>,
)
    requires
        action != ',',
        config matches Some(c) ==> c.has_ids(),
    ensures
        ({
            let control = image_control(action, image, placement_id, config);
            &&& said(control, 'a') == Some(seq![action])
            &&& names(control, image.num_or_id)
            &&& says(control, 'p', id_value(placement_id))
            &&& says(control, 'q', 0)
            &&& config matches Some(c) ==> says_config(control, c)
            &&& config is None ==> forall|k: char|
                is_config_key(k) ==> #[trigger] said(control, k) is None
            &&& says_format(control, image.format)
        }),
{
    let (key, number) = match image.num_or_id {
        NumberOrId::Id(id) => ('i', digits(id@ as nat)),
        NumberOrId::Number(n) => ('I', digits(n@ as nat)),
    };
    match image.num_or_id {
        NumberOrId::Id(id) => {
            lemma_number_plain(id@ as nat);
        },
        NumberOrId::Number(n) => {
            lemma_number_plain(n@ as nat);
        },
    }
    let pf = Seq::<(char, int)>::empty().push(('p', id_value(placement_id)));
    let c1 = seq!['a', '=', action];
    let c2 = c1 + entry(key, number);
    let c3 = c2 + fields_text(pf);
    assert(c1 =~= seq!['a', '='] + seq![action]);
    lemma_said_first(c1, 'a', seq![action]);
    lemma_said_entry(c1, key, number);
    assert(pf[0] == ('p', id_value(placement_id)));
    lemma_field_value(pf, 0);
    lemma_said_fields(c2, pf, 'p');
    assert forall|k: char| k != 'p' implies #[trigger] said(c3, k) == said(c2, k) by {
        lemma_no_field(pf, k);
        lemma_said_fields(c2, pf, k);
    }
    assert(said(c2, 'p') is None);
    assert forall|k: char| is_config_key(k) implies #[trigger] said(c3, k) is None by {
        assert(said(c2, k) is None);
    }
    assert(said(c2, 'f') is None && said(c2, 's') is None && said(c2, 'v') is None);
    assert(said(c3, 'f') is None && said(c3, 's') is None && said(c3, 'v') is None);
    assert(said(c3, 'q') == said(c2, 'q') && said(c2, 'q') is None);
    assert(said(c3, 'i') == said(c2, 'i') && said(c3, 'I') == said(c2, 'I'));
    assert(said(c3, 'a') == said(c2, 'a') && said(c2, 'a') == Some(seq![action]));
    let c4 = match config {
        Some(c) => c3 + fields_text(c.fields()),
        None => c3,
    };
    if let Some(c) = config {
        lemma_says_config(c3, c);
    }
    assert(said(c4, 'f') is None && said(c4, 's') is None && said(c4, 'v') is None);
    assert(said(c4, 'p') == said(c3, 'p') && said(c4, 'q') is None);
    assert(said(c4, 'i') == said(c3, 'i') && said(c4, 'I') == said(c3, 'I'));
    assert(said(c4, 'a') == said(c3, 'a'));
    lemma_says_format(c4, image.format);
    let control = image_control(action, image, placement_id, config);
    assert(control == c4 + fields_text(format_fields(image.format)));
    assert forall|k: char| is_config_key(k) implies #[trigger] said(control, k) == said(c4, k) by {}
    assert(said(control, 'p') == said(c4, 'p') && said(control, 'q') == said(c4, 'q'));
    assert(said(control, 'i') == said(c4, 'i') && said(control, 'I') == said(c4, 'I'));
    assert(said(control, 'a') == said(c4, 'a'));
    if let Some(c) = config {
        assert(says_config(c4, c));
        lemma_same_config(c4, control, c);
    }
}

/// Control data that says the same of the keys of a configuration says the same configuration.
proof fn lemma_same_config(a: Seq<char>, b: Seq<char>, config: DisplayConfig)
    requires
        says_config(a, config),
        forall|k: char| is_config_key(k) ==> #[trigger] said(b, k) == said(a, k),
    ensures
        says_config(b, config),
{
    assert(is_config_key('x') && is_config_key('y') && is_config_key('w') && is_config_key('h'));
    assert(is_config_key('X') && is_config_key('Y') && is_config_key('c') && is_config_key('r'));
    assert(is_config_key('z') && is_config_key('H') && is_config_key('V') && is_config_key('C'));
    assert(is_config_key('U') && is_config_key('P') && is_config_key('Q'));
}

/// A request that sends an image is its control data, and then its medium.
#[verifier::rlimit(60)]
proof fn lemma_image_packet(
    action: char,
    mark: Seq<char>,
    image: Image,
    placement_id: Option<PlacementId>,
    config: Option<DisplayConfig>,
    verbosity: Verbosity,
)
    requires
        mark == seq![action, ','],
        config matches Some(c) ==> c.has_ids(),
    ensures
        is_packet(
            text("\x1b_Ga=") + (encode_utf8(mark) + image.bytes(placement_id, config, verbosity)),
            image_control(action, image, placement_id, config),
            image.medium.bytes() + text("\x1b\\"),
        ),
{
    let (start, number) = match image.num_or_id {
        NumberOrId::Id(id) => ("i="@, digits(id@ as nat)),
        NumberOrId::Number(n) => ("I="@, digits(n@ as nat)),
    };
    let pf = Seq::<(char, int)>::empty().push(('p', id_value(placement_id)));
    let p = fields_text(pf);
    let g = fields_text(format_fields(image.format));
    let c = match config {
        Some(config) => fields_text(config.fields()),
        None => Seq::empty(),
    };
    lemma_fields_text(pf);
    lemma_params_push(Seq::empty(), 'p', id_value(placement_id));
    assert(params(Seq::<(char, int)>::empty()) =~= Seq::<u8>::empty());
    assert(encode_utf8(p) =~= param('p', id_value(placement_id), 0));
    lemma_format_fields(image.format);
    lemma_fields_text(format_fields(image.format));
    if let Some(config) = config {
        lemma_config_fields(config);
        lemma_fields_text(config.fields());
    } else {
        assert(encode_utf8(c) =~= Seq::<u8>::empty());
    }
    let m = image.medium.bytes();
    let z = text("\x1b\\");
    lemma_join_image("\x1b_Ga="@, mark, start, number, p, c, g, m, z);
    let all = "\x1b_Ga="@ + mark + start + number + p + c + g;
    let control = image_control(action, image, placement_id, config);
    assert(all == "\x1b_G"@ + control) by {
        reveal_strlit("\x1b_Ga=");
        reveal_strlit("\x1b_G");
        reveal_strlit("i=");
        reveal_strlit("I=");
        assert(all =~= "\x1b_G"@ + control);
    }
    lemma_marked(
        text("\x1b_Ga=") + (encode_utf8(mark) + image.bytes(placement_id, config, verbosity)),
        all,
        control,
        m + z,
    );
}

/// A request that sends an image and shows it names the image and the placement, says all of
/// where and how it is shown and how its pixels are laid out, and then carries the image.
pub proof fn lemma_transmission_is_read(
    image: Image,
    config: DisplayConfig,
    placement_id: Option<PlacementId>,
    verbosity: Verbosity,
)
    requires
        config.has_ids(),
    ensures
        exists|control: Seq<char>|
            {
                &&& #[trigger] is_packet(
                    (Action::TransmitAndDisplay { image, config, placement_id }).bytes(verbosity),
                    control,
                    image.medium.bytes() + text("\x1b\\"),
                )
                &&& said(control, 'a') == Some(seq!['T'])
                &&& said(control, 'q') is None
                &&& names(control, image.num_or_id)
                &&& says(control, 'p', id_value(placement_id))
                &&& says_config(control, config)
                &&& says_format(control, image.format)
            },
{
    reveal_strlit("T,");
    assert("T,"@ =~= seq!['T', ',']);
    lemma_image_packet('T', "T,"@, image, placement_id, Some(config), verbosity);
    lemma_image_is_said('T', image, placement_id, Some(config));
    let control = image_control('T', image, placement_id, Some(config));
    assert(is_packet(
        (Action::TransmitAndDisplay { image, config, placement_id }).bytes(verbosity),
        control,
        image.medium.bytes() + text("\x1b\\"),
    ));
}

/// A question whether an image could be sent names the image, says how its pixels are laid out
/// and nothing of where it would be shown, and then carries the image.
pub proof fn lemma_query_is_read(image: Image, verbosity: Verbosity)
    ensures
        exists|control: Seq<char>|
            {
                &&& #[trigger] is_packet(
                    Action::Query(&image).bytes(verbosity),
                    control,
                    image.medium.bytes() + text("\x1b\\"),
                )
                &&& said(control, 'a') == Some(seq!['q'])
                &&& said(control, 'q') is None
                &&& names(control, image.num_or_id)
                &&& said(control, 'p') is None
                &&& forall|k: char| is_config_key(k) ==> #[trigger] said(control, k) is None
                &&& says_format(control, image.format)
            },
{
    reveal_strlit("q,");
    assert("q,"@ =~= seq!['q', ',']);
    lemma_image_packet('q', "q,"@, image, None, None, verbosity);
    lemma_image_is_said('q', image, None, None);
    let control = image_control('q', image, None, None);
    assert(is_packet(
        Action::Query(&image).bytes(verbosity),
        control,
        image.medium.bytes() + text("\x1b\\"),
    ));
}

/// The control data of a deletion: its letter, and its numbers, each with a key.
spec fn deletion_control(letter: char, numbers: Seq<(char, Seq<char>)>) -> Seq<char>
    decreases numbers.len(),
{
    if numbers.len() == 0 {
        seq!['a', '=', 'd'] + entry('d', seq![letter])
    } else {
        deletion_control(letter, numbers.drop_last()) + entry(numbers.last().0, numbers.last().1)
    }
}

/// What the control data of a deletion says.
proof fn lemma_deletion_is_said(letter: char, k1: char, m: nat, k2: char, n: nat)
    requires
        letter != ',',
        k1 != ',' && k1 != 'a' && k1 != 'd',
        k2 != ',' && k2 != 'a' && k2 != 'd' && k2 != k1,
    ensures
        ({
            let one = deletion_control(letter, Seq::empty().push((k1, digits(m))));
            let two = deletion_control(
                letter,
                Seq::empty().push((k1, digits(m))).push((k2, digits(n))),
            );
            &&& said(one, 'a') == Some(seq!['d'])
            &&& said(one, 'd') == Some(seq![letter])
            &&& said(one, k1) == Some(digits(m))
            &&& forall|k: char|
                k != 'a' && k != 'd' && k != k1 ==> #[trigger] said(one, k) is None
            &&& said(two, 'a') == Some(seq!['d'])
            &&& said(two, 'd') == Some(seq![letter])
            &&& said(two, k1) == Some(digits(m))
            &&& said(two, k2) == Some(digits(n))
            &&& forall|k: char|
                k != 'a' && k != 'd' && k != k1 && k != k2 ==> #[trigger] said(two, k) is None
        }),
{
    let e0 = Seq::<(char, Seq<char>)>::empty();
    let e1 = e0.push((k1, digits(m)));
    let e2 = e1.push((k2, digits(n)));
    let c0 = seq!['a', '=', 'd'];
    let c1 = deletion_control(letter, e0);
    let c2 = deletion_control(letter, e1);
    let c3 = deletion_control(letter, e2);
    assert(e1.drop_last() =~= e0);
    assert(e2.drop_last() =~= e1);
    assert(c1 == c0 + entry('d', seq![letter]));
    assert(c2 == c1 + entry(k1, digits(m)));
    assert(c3 == c2 + entry(k2, digits(n)));
    lemma_number_plain(m);
    lemma_number_plain(n);
    assert(c0 =~= seq!['a', '='] + seq!['d']);
    lemma_said_first(c0, 'a', seq!['d']);
    lemma_said_entry(c0, 'd', seq![letter]);
    lemma_said_entry(c1, k1, digits(m));
    lemma_said_entry(c2, k2, digits(n));
    assert(said(c1, 'a') == said(c0, 'a') && said(c1, 'd') == Some(seq![letter]));
    assert(said(c2, 'a') == said(c1, 'a') && said(c2, 'd') == said(c1, 'd'));
    assert(said(c2, k1) == Some(digits(m)));
    assert(said(c3, 'a') == said(c2, 'a') && said(c3, 'd') == said(c2, 'd'));
    assert forall|k: char| k != 'a' && k != 'd' && k != k1 implies #[trigger] said(
        c2,
        k,
    ) is None by {
        assert(said(c1, k) == said(c0, k));
    }
    assert forall|k: char| k != 'a' && k != 'd' && k != k1 && k != k2 implies #[trigger] said(
        c3,
        k,
    ) is None by {
        assert(said(c2, k) is None);
    }
}

/// A deletion is its control data.
#[verifier::rlimit(40)]
proof fn lemma_deletion_packet(config: DeleteConfig, verbosity: Verbosity)
    ensures
        is_packet(
            Action::Delete(config).bytes(verbosity),
            match config.which {
                WhichToDelete::ImageId(id, None) => deletion_control(
                    config.effect.spec_maybe_upper('i'),
                    Seq::empty().push(('i', digits(id@ as nat))),
                ),
                WhichToDelete::ImageId(id, Some(p)) => deletion_control(
                    config.effect.spec_maybe_upper('i'),
                    Seq::empty().push(('i', digits(id@ as nat))).push(('p', digits(p@ as nat))),
                ),
                WhichToDelete::IdRange(start, end) => deletion_control(
                    config.effect.spec_maybe_upper('r'),
                    Seq::empty().push(('x', digits(start@ as nat))).push(
                        ('y', digits(end@ as nat)),
                    ),
                ),
            },
            text("\x1b\\"),
        ),
{
    let (letter, k1, s1, n1, k2, s2, n2) = match config.which {
        WhichToDelete::ImageId(id, None) => (
            config.effect.spec_maybe_upper('i'),
            'i',
            ",i="@,
            digits(id@ as nat),
            'p',
            ",p="@,
            Seq::empty(),
        ),
        WhichToDelete::ImageId(id, Some(p)) => (
            config.effect.spec_maybe_upper('i'),
            'i',
            ",i="@,
            digits(id@ as nat),
            'p',
            ",p="@,
            digits(p@ as nat),
        ),
        WhichToDelete::IdRange(start, end) => (
            config.effect.spec_maybe_upper('r'),
            'x',
            ",x="@,
            digits(start@ as nat),
            'y',
            ",y="@,
            digits(end@ as nat),
        ),
    };
    let z = text("\x1b\\");
    let e0 = Seq::<(char, Seq<char>)>::empty();
    let e1 = e0.push((k1, n1));
    let e2 = e1.push((k2, n2));
    assert(e1.drop_last() =~= e0);
    assert(e2.drop_last() =~= e1);
    let one = deletion_control(letter, e1);
    let two = deletion_control(letter, e2);
    let c0 = seq!['a', '=', 'd'];
    assert(deletion_control(letter, e0) == c0 + entry('d', seq![letter]));
    assert(one == deletion_control(letter, e0) + entry(e1.last().0, e1.last().1));
    assert(one == c0 + entry('d', seq![letter]) + entry(k1, n1));
    assert(two == one + entry(k2, n2));
    lemma_join_deletion("\x1b_Ga="@, "d"@, ",d="@, seq![letter], s1, n1, s2, n2, z);
    let all_one = "\x1b_Ga="@ + "d"@ + ",d="@ + seq![letter] + s1 + n1;
    let all_two = all_one + s2 + n2;
    lemma_deletion_text(letter, k1, s1, n1, k2, s2, n2);
    let bytes = Action::Delete(config).bytes(verbosity);
    match config.which {
        WhichToDelete::ImageId(_, None) => {
            lemma_marked(bytes, all_one, one, z);
        },
        _ => {
            lemma_marked(bytes, all_two, two, z);
        },
    }
}

/// The parts of a deletion, one behind the other.
proof fn lemma_deletion_text(
    letter: char,
    k1: char,
    s1: Seq<char>,
    n1: Seq<char>,
    k2: char,
    s2: Seq<char>,
    n2: Seq<char>,
)
    requires
        k1 == 'i' && s1 == ",i="@ && k2 == 'p' && s2 == ",p="@ || k1 == 'x' && s1 == ",x="@ && k2
            == 'y' && s2 == ",y="@,
    ensures
        ({
            let all = "\x1b_Ga="@ + "d"@ + ",d="@ + seq![letter] + s1 + n1;
            let one = seq!['a', '=', 'd'] + entry('d', seq![letter]) + entry(k1, n1);
            &&& all == "\x1b_G"@ + one
            &&& all + s2 + n2 == "\x1b_G"@ + (one + entry(k2, n2))
        }),
{
    reveal_strlit("\x1b_Ga=");
    reveal_strlit("\x1b_G");
    reveal_strlit("d");
    reveal_strlit(",d=");
    reveal_strlit(",i=");
    reveal_strlit(",p=");
    reveal_strlit(",x=");
    reveal_strlit(",y=");
    let all = "\x1b_Ga="@ + "d"@ + ",d="@ + seq![letter] + s1 + n1;
    let one = seq!['a', '=', 'd'] + entry('d', seq![letter]) + entry(k1, n1);
    assert(s1 =~= seq![',', k1, '=']);
    assert(s2 =~= seq![',', k2, '=']);
    assert(all =~= "\x1b_G"@ + one);
    assert(all + s2 + n2 =~= "\x1b_G"@ + (one + entry(k2, n2)));
}

/// A request to take images off the screen names one image, with its placement where there is
/// one, or the first and the last of a range, and frees data exactly where the letter is upper
/// case.
pub proof fn lemma_deletion_is_read(config: DeleteConfig, verbosity: Verbosity)
    ensures
        exists|control: Seq<char>|
            {
                &&& #[trigger] is_packet(
                    Action::Delete(config).bytes(verbosity),
                    control,
                    text("\x1b\\"),
                )
                &&& said(control, 'a') == Some(seq!['d'])
                &&& match config.which {
                    WhichToDelete::ImageId(id, placement) => {
                        &&& said(control, 'd') == Some(
                            seq![
                                if config.effect is Delete {
                                    'I'
                                } else {
                                    'i'
                                },
                            ],
                        )
                        &&& said(control, 'i') == Some(digits(id@ as nat))
                        &&& said(control, 'p') == (match placement {
                            Some(p) => Some(digits(p@ as nat)),
                            None => None,
                        })
                        &&& said(control, 'x') is None
                        &&& said(control, 'y') is None
                    },
                    WhichToDelete::IdRange(start, end) => {
                        &&& said(control, 'd') == Some(
                            seq![
                                if config.effect is Delete {
                                    'R'
                                } else {
                                    'r'
                                },
                            ],
                        )
                        &&& said(control, 'x') == Some(digits(start@ as nat))
                        &&& said(control, 'y') == Some(digits(end@ as nat))
                        &&& said(control, 'i') is None
                        &&& said(control, 'p') is None
                    },
                }
            },
{
    lemma_deletion_packet(config, verbosity);
    match config.which {
        WhichToDelete::ImageId(id, None) => {
            lemma_deletion_is_said(
                config.effect.spec_maybe_upper('i'),
                'i',
                id@ as nat,
                'p',
                0,
            );
        },
        WhichToDelete::ImageId(id, Some(p)) => {
            lemma_deletion_is_said(
                config.effect.spec_maybe_upper('i'),
                'i',
                id@ as nat,
                'p',
                p@ as nat,
            );
        },
        WhichToDelete::IdRange(start, end) => {
            lemma_deletion_is_said(
                config.effect.spec_maybe_upper('r'),
                'x',
                start@ as nat,
                'y',
                end@ as nat,
            );
        },
    }
}

} // verus!
