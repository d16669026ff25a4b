//! Where and how an image is shown.

use vstd::prelude::*;

use crate::kitty::format::are_keys;
use crate::kitty::format::lemma_params_differ;
use crate::kitty::format::lemma_params_push;
use crate::kitty::format::param;
use crate::kitty::format::params;
use crate::kitty::format::write_param;
use crate::kitty::id::lemma_same_id;
use crate::kitty::id::ImageId;
use crate::text::int_text;
use crate::text::push_text;
use crate::text::text;

verus! {

broadcast use {crate::text::lemma_append, crate::text::lemma_append_nothing};

/// Where the cursor is left once an image is shown.
#[derive(Clone, Copy, Debug, PartialEq, Eq, Structural)]
pub enum CursorMovementPolicy {
    MoveToAfterImage,
    DontMove,
}

impl Default for CursorMovementPolicy {
    fn default() -> (r: CursorMovementPolicy)
        ensures
            r == CursorMovementPolicy::MoveToAfterImage,
    {
        CursorMovementPolicy::MoveToAfterImage
    }
}

/// The part of an image that is shown, in pixels, and where it is shown, in cells.
#[derive(Clone, Copy, Debug, PartialEq, Eq, Structural)]
pub struct DisplayLocation {
    pub x: u32,
    pub y: u32,
    pub width: u32,
    pub height: u32,
    pub x_offset: usize,
    pub y_offset: usize,
    pub columns: u16,
    pub rows: u16,
    pub z_index: i32,
    pub horizontal_offset: i32,
    pub vertical_offset: i32,
}

impl Default for DisplayLocation {
    fn default() -> (r: DisplayLocation)
        ensures
            r == DisplayLocation::spec_default(),
    {
        DisplayLocation {
            x: 0,
            y: 0,
            width: 0,
            height: 0,
            x_offset: 0,
            y_offset: 0,
            columns: 0,
            rows: 0,
            z_index: 0,
            horizontal_offset: 0,
            vertical_offset: 0,
        }
    }
}

impl DisplayLocation {
    /// The location that a request leaves unsaid.
    pub open spec fn spec_default() -> DisplayLocation {
        DisplayLocation {
            x: 0,
            y: 0,
            width: 0,
            height: 0,
            x_offset: 0,
            y_offset: 0,
            columns: 0,
            rows: 0,
            z_index: 0,
            horizontal_offset: 0,
            vertical_offset: 0,
        }
    }

    /// The parameters of the location.
    pub open spec fn bytes(self) -> Seq<u8> {
        param('x', self.x as int, 0) + param('y', self.y as int, 0) + param(
            'w',
            self.width as int,
            0,
        ) + param('h', self.height as int, 0) + param('X', self.x_offset as int, 0) + param(
            'Y',
            self.y_offset as int,
            0,
        ) + param('c', self.columns as int, 0) + param('r', self.rows as int, 0) + param(
            'z',
            self.z_index as int,
            0,
        ) + param('H', self.horizontal_offset as int, 0) + param('V', self.vertical_offset as int, 0)
    }

    /// Appends the parameters of the location.
    pub fn write_to(&self, buf: &mut Vec<u8>)
        ensures
            final(buf)@ == old(buf)@ + self.bytes(),
    {
        write_param(buf, 'x', self.x as i128, 0);
        write_param(buf, 'y', self.y as i128, 0);
        write_param(buf, 'w', self.width as i128, 0);
        write_param(buf, 'h', self.height as i128, 0);
        write_param(buf, 'X', self.x_offset as i128, 0);
        write_param(buf, 'Y', self.y_offset as i128, 0);
        write_param(buf, 'c', self.columns as i128, 0);
        write_param(buf, 'r', self.rows as i128, 0);
        write_param(buf, 'z', self.z_index as i128, 0);
        write_param(buf, 'H', self.horizontal_offset as i128, 0);
        write_param(buf, 'V', self.vertical_offset as i128, 0);
    }
}

/// How an image is shown.
#[derive(Clone, Copy, Debug, PartialEq, Eq, Structural)]
pub struct DisplayConfig {
    pub location: DisplayLocation,
    pub cursor_movement: CursorMovementPolicy,
    pub create_virtual_placement: bool,
    pub parent_id: Option<ImageId>,
    pub parent_placement: Option<ImageId>,
}

impl Default for DisplayConfig {
    fn default() -> (r: DisplayConfig)
        ensures
            r == DisplayConfig::spec_default(),
    {
        DisplayConfig {
            location: DisplayLocation::default(),
            cursor_movement: CursorMovementPolicy::default(),
            create_virtual_placement: false,
            parent_id: None,
            parent_placement: None,
        }
    }
}

impl DisplayConfig {
    /// The configuration that a request leaves unsaid.
    pub open spec fn spec_default() -> DisplayConfig {
        DisplayConfig {
            location: DisplayLocation::spec_default(),
            cursor_movement: CursorMovementPolicy::MoveToAfterImage,
            create_virtual_placement: false,
            parent_id: None,
            parent_placement: None,
        }
    }

    /// The parameters of the configuration.
    pub open spec fn bytes(self) -> Seq<u8> {
        self.location.bytes() + (match self.cursor_movement {
            CursorMovementPolicy::MoveToAfterImage => Seq::empty(),
            CursorMovementPolicy::DontMove => text(",C=1"),
        }) + (if self.create_virtual_placement {
            text(",U=1")
        } else {
            Seq::empty()
        }) + (match self.parent_id {
            Some(id) => param('P', id@ as int, 0),
            None => Seq::empty(),
        }) + (match self.parent_placement {
            Some(id) => param('Q', id@ as int, 0),
            None => Seq::empty(),
        })
    }

    /// Appends the parameters of the configuration.
    pub fn write_to(&self, buf: &mut Vec<u8>)
        ensures
            final(buf)@ == old(buf)@ + self.bytes(),
    {
        self.location.write_to(buf);
        if self.cursor_movement != CursorMovementPolicy::default() {
            push_text(buf, ",C=1");
        }
        if self.create_virtual_placement {
            push_text(buf, ",U=1");
        }
        if let Some(parent_id) = self.parent_id {
            write_param(buf, 'P', parent_id.get() as i128, 0);
        }
        if let Some(parent_placement) = self.parent_placement {
            write_param(buf, 'Q', parent_placement.get() as i128, 0);
        }
    }
}

impl DisplayLocation {
    /// The keys and values of the location, in the order in which they are written.
    pub open spec fn fields(self) -> Seq<(char, int)> {
        Seq::empty().push(('x', self.x as int)).push(('y', self.y as int)).push(
            ('w', self.width as int),
        ).push(('h', self.height as int)).push(('X', self.x_offset as int)).push(
            ('Y', self.y_offset as int),
        ).push(('c', self.columns as int)).push(('r', self.rows as int)).push(
            ('z', self.z_index as int),
        ).push(('H', self.horizontal_offset as int)).push(('V', self.vertical_offset as int))
    }
}

impl DisplayConfig {
    /// The keys and values of the configuration, in the order in which they are written.
    pub open spec fn fields(self) -> Seq<(char, int)> {
        self.location.fields().push(
            (
                'C',
                match self.cursor_movement {
                    CursorMovementPolicy::MoveToAfterImage => 0,
                    CursorMovementPolicy::DontMove => 1,
                },
            ),
        ).push(
            (
                'U',
                if self.create_virtual_placement {
                    1
                } else {
                    0
                },
            ),
        ).push(('P', id_value(self.parent_id))).push(('Q', id_value(self.parent_placement)))
    }

    /// Whether the identifiers are identifiers: none of them is zero.
    pub open spec fn has_ids(self) -> bool {
        &&& self.parent_id matches Some(id) ==> id@ != 0
        &&& self.parent_placement matches Some(id) ==> id@ != 0
    }
}

/// The value of an identifier; zero where there is none.
pub open spec fn id_value(id: Option<ImageId>) -> int {
    match id {
        Some(id) => id@ as int,
        None => 0,
    }
}

/// The parameters of a location are its keys and values.
proof fn lemma_location_fields(l: DisplayLocation)
    ensures
        l.bytes() == params(l.fields()),
{
    let f0 = Seq::<(char, int)>::empty();
    let f1 = f0.push(('x', l.x as int));
    let f2 = f1.push(('y', l.y as int));
    let f3 = f2.push(('w', l.width as int));
    let f4 = f3.push(('h', l.height as int));
    let f5 = f4.push(('X', l.x_offset as int));
    let f6 = f5.push(('Y', l.y_offset as int));
    let f7 = f6.push(('c', l.columns as int));
    let f8 = f7.push(('r', l.rows as int));
    let f9 = f8.push(('z', l.z_index as int));
    let f10 = f9.push(('H', l.horizontal_offset as int));
    lemma_params_push(f0, 'x', l.x as int);
    lemma_params_push(f1, 'y', l.y as int);
    lemma_params_push(f2, 'w', l.width as int);
    lemma_params_push(f3, 'h', l.height as int);
    lemma_params_push(f4, 'X', l.x_offset as int);
    lemma_params_push(f5, 'Y', l.y_offset as int);
    lemma_params_push(f6, 'c', l.columns as int);
    lemma_params_push(f7, 'r', l.rows as int);
    lemma_params_push(f8, 'z', l.z_index as int);
    lemma_params_push(f9, 'H', l.horizontal_offset as int);
    lemma_params_push(f10, 'V', l.vertical_offset as int);
    assert(params(f1) =~= param('x', l.x as int, 0));
}

/// A switch that is on is written as a parameter with the value one.
proof fn lemma_switches()
    ensures
        text(",C=1") == param('C', 1, 0),
        text(",U=1") == param('U', 1, 0),
{
    reveal_strlit(",C=1");
    reveal_strlit(",U=1");
    assert(int_text(1) =~= seq!['1']);
    assert(",C=1"@ =~= seq![',', 'C', '='] + int_text(1));
    assert(",U=1"@ =~= seq![',', 'U', '='] + int_text(1));
}

/// The parameters of a configuration are its keys and values.
#[verifier::rlimit(40)]
pub proof fn lemma_config_fields(config: DisplayConfig)
    requires
        config.has_ids(),
    ensures
        config.bytes() == params(config.fields()),
{
    lemma_location_fields(config.location);
    lemma_switches();
    let moved: int = match config.cursor_movement {
        CursorMovementPolicy::MoveToAfterImage => 0,
        CursorMovementPolicy::DontMove => 1,
    };
    let is_virtual: int = if config.create_virtual_placement {
        1
    } else {
        0
    };
    let g0 = config.location.fields();
    let g1 = g0.push(('C', moved));
    let g2 = g1.push(('U', is_virtual));
    let g3 = g2.push(('P', id_value(config.parent_id)));
    lemma_params_push(g0, 'C', moved);
    lemma_params_push(g1, 'U', is_virtual);
    lemma_params_push(g2, 'P', id_value(config.parent_id));
    lemma_params_push(g3, 'Q', id_value(config.parent_placement));
}

/// The key that stands at a place among the parameters of a configuration.
spec fn config_key(place: int) -> char {
    seq!['x', 'y', 'w', 'h', 'X', 'Y', 'c', 'r', 'z', 'H', 'V', 'C', 'U', 'P', 'Q'][place]
}

/// The keys of configurations are the same for all of them, and all different.
proof fn lemma_config_keys(config: DisplayConfig)
    ensures
        config.fields().len() == 15,
        forall|i: int| 0 <= i < 15 ==> #[trigger] config.fields()[i].0 == config_key(i),
        are_keys(config.fields()),
{
    let f = config.fields();
    assert(f.len() == 15);
    assert forall|i: int| 0 <= i < 15 implies #[trigger] f[i].0 == config_key(i) by {}
    assert forall|i: int| 0 <= i < f.len() implies 0 <= #[trigger] f[i].0 as int <= 127 && f[i].0
        != ',' by {
        assert(f[i].0 == config_key(i));
    }
    assert forall|i: int, j: int| 0 <= i < j < f.len() implies #[trigger] f[i].0
        != #[trigger] f[j].0 by {
        assert(f[i].0 == config_key(i) && f[j].0 == config_key(j));
    }
}

/// Configurations with the same values are the same.
proof fn lemma_config_values(a: DisplayConfig, b: DisplayConfig)
    requires
        a.has_ids(),
        b.has_ids(),
        a.fields() == b.fields(),
    ensures
        a == b,
{
    let f = a.fields();
    let g = b.fields();
    assert(f[0] == g[0] && f[1] == g[1] && f[2] == g[2] && f[3] == g[3] && f[4] == g[4]);
    assert(f[5] == g[5] && f[6] == g[6] && f[7] == g[7] && f[8] == g[8] && f[9] == g[9]);
    assert(f[10] == g[10] && f[11] == g[11] && f[12] == g[12] && f[13] == g[13] && f[14] == g[14]);
    if let (Some(x), Some(y)) = (a.parent_id, b.parent_id) {
        lemma_same_id(x, y);
    }
    if let (Some(x), Some(y)) = (a.parent_placement, b.parent_placement) {
        lemma_same_id(x, y);
    }
}

/// No two configurations are written alike.
pub proof fn lemma_configs_differ(a: DisplayConfig, b: DisplayConfig)
    requires
        a.has_ids(),
        b.has_ids(),
        a.bytes() == b.bytes(),
    ensures
        a == b,
{
    lemma_config_fields(a);
    lemma_config_fields(b);
    lemma_config_keys(a);
    lemma_config_keys(b);
    lemma_params_differ(a.fields(), b.fields());
    lemma_config_values(a, b);
}

/// The configuration that a request leaves unsaid is written as nothing, and no other one is.
pub proof fn lemma_default_is_unsaid(config: DisplayConfig)
    requires
        config.has_ids(),
    ensures
        config.bytes() == Seq::<u8>::empty() <==> config == DisplayConfig::spec_default(),
{
    let unsaid = DisplayConfig::spec_default();
    assert(unsaid.bytes() =~= Seq::<u8>::empty());
    if config.bytes() == Seq::<u8>::empty() {
        lemma_configs_differ(config, unsaid);
    }
}

} // verus!
