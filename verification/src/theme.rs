//! Theme selection: the menu of selectable themes and its mapping to the
//! rendering theme of the shared state.

use vstd::prelude::*;
use crate::state::RenderTheme;

verus! {

/// The themes a user can pick from, in menu order.
#[derive(Debug, Clone, Copy, PartialEq, Eq, Structural)]
pub enum SelectableTheme {
    Default,
    Nord,
    Gruvbox,
    Grayscale,
}

impl From<SelectableTheme> for RenderTheme {
    fn from(selectable: SelectableTheme) -> (r: RenderTheme) {
        match selectable {
            SelectableTheme::Default => RenderTheme::Default,
            SelectableTheme::Nord => RenderTheme::Nord,
            SelectableTheme::Gruvbox => RenderTheme::Gruvbox,
            SelectableTheme::Grayscale => RenderTheme::Grayscale,
        }
    }
}

impl vstd::std_specs::convert::FromSpecImpl<SelectableTheme> for RenderTheme {
    open spec fn obeys_from_spec() -> bool {
        true
    }

    open spec fn from_spec(selectable: SelectableTheme) -> RenderTheme {
        match selectable {
            SelectableTheme::Default => RenderTheme::Default,
            SelectableTheme::Nord => RenderTheme::Nord,
            SelectableTheme::Gruvbox => RenderTheme::Gruvbox,
            SelectableTheme::Grayscale => RenderTheme::Grayscale,
        }
    }
}

/// `default`
pub open spec fn name_default() -> Seq<u8> {
    seq![0x64u8, 0x65u8, 0x66u8, 0x61u8, 0x75u8, 0x6cu8, 0x74u8]
}

/// `nord`
pub open spec fn name_nord() -> Seq<u8> {
    seq![0x6eu8, 0x6fu8, 0x72u8, 0x64u8]
}

/// `gruvbox`
pub open spec fn name_gruvbox() -> Seq<u8> {
    seq![0x67u8, 0x72u8, 0x75u8, 0x76u8, 0x62u8, 0x6fu8, 0x78u8]
}

/// `grayscale`
pub open spec fn name_grayscale() -> Seq<u8> {
    seq![0x67u8, 0x72u8, 0x61u8, 0x79u8, 0x73u8, 0x63u8, 0x61u8, 0x6cu8, 0x65u8]
}

/// The theme a (lower-cased) name denotes, or `None` for any other name.
pub open spec fn sp_theme_of_name(name: Seq<u8>) -> Option<RenderTheme> {
    if name == name_default() {
        Some(RenderTheme::Default)
    } else if name == name_nord() {
        Some(RenderTheme::Nord)
    } else if name == name_gruvbox() {
        Some(RenderTheme::Gruvbox)
    } else if name == name_grayscale() {
        Some(RenderTheme::Grayscale)
    } else {
        None
    }
}

fn name_matches(name: &Vec<u8>, b0: u8, rest: &Vec<u8>) -> (r: bool)
    ensures
        r == (name@ == seq![b0] + rest@),
{
    if name.len() == 0 || name.len() - 1 != rest.len() {
        proof {
            assert(name@.len() != (seq![b0] + rest@).len());
        }
        return false;
    }
    if name[0] != b0 {
        proof {
            assert(name@[0] != (seq![b0] + rest@)[0]);
        }
        return false;
    }
    let n = rest.len();
    let mut i: usize = 0;
    while i < n
        invariant
            0 <= i <= n == rest@.len(),
            name@.len() == 1 + n,
            name@[0] == b0,
            forall|k: int| 0 <= k < i ==> name@[1 + k] == rest@[k],
        decreases n - i,
    {
        if name[1 + i] != rest[i] {
            proof {
                assert(name@[1 + i as int] != (seq![b0] + rest@)[1 + i as int]);
            }
            return false;
        }
        i += 1;
    }
    proof {
        assert(name@ =~= seq![b0] + rest@);
    }
    true
}

/// Mirror of `sp_theme_of_name`: parse a theme name given on the command
/// line.
pub fn theme_from_name(name: &Vec<u8>) -> (r: Option<RenderTheme>)
    ensures
        r == sp_theme_of_name(name@),
{
    let mut d: Vec<u8> = Vec::new();
    d.push(0x65);
    d.push(0x66);
    d.push(0x61);
    d.push(0x75);
    d.push(0x6c);
    d.push(0x74);
    if name_matches(name, 0x64, &d) {
        proof {
            assert(seq![0x64u8] + d@ =~= name_default());
        }
        return Some(RenderTheme::Default);
    }
    let mut o: Vec<u8> = Vec::new();
    o.push(0x6f);
    o.push(0x72);
    o.push(0x64);
    if name_matches(name, 0x6e, &o) {
        proof {
            assert(seq![0x6eu8] + o@ =~= name_nord());
        }
        return Some(RenderTheme::Nord);
    }
    let mut g: Vec<u8> = Vec::new();
    g.push(0x72);
    g.push(0x75);
    g.push(0x76);
    g.push(0x62);
    g.push(0x6f);
    g.push(0x78);
    if name_matches(name, 0x67, &g) {
        proof {
            assert(seq![0x67u8] + g@ =~= name_gruvbox());
        }
        return Some(RenderTheme::Gruvbox);
    }
    let mut y: Vec<u8> = Vec::new();
    y.push(0x72);
    y.push(0x61);
    y.push(0x79);
    y.push(0x73);
    y.push(0x63);
    y.push(0x61);
    y.push(0x6c);
    y.push(0x65);
    if name_matches(name, 0x67, &y) {
        proof {
            assert(seq![0x67u8] + y@ =~= name_grayscale());
        }
        return Some(RenderTheme::Grayscale);
    }
    proof {
        assert(name@ != name_default()) by {
            assert(seq![0x64u8] + d@ =~= name_default());
        }
        assert(name@ != name_nord()) by {
            assert(seq![0x6eu8] + o@ =~= name_nord());
        }
        assert(name@ != name_gruvbox()) by {
            assert(seq![0x67u8] + g@ =~= name_gruvbox());
        }
        assert(name@ != name_grayscale()) by {
            assert(seq![0x67u8] + y@ =~= name_grayscale());
        }
    }
    None
}

/// Position of the current theme in the selection menu, so the menu opens on
/// it.
pub fn theme_to_index(state_theme: RenderTheme) -> (r: usize)
    ensures
        r == (match state_theme {
            RenderTheme::Default => 0int,
            RenderTheme::Nord => 1int,
            RenderTheme::Gruvbox => 2int,
            RenderTheme::Grayscale => 3int,
        }),
{
    match state_theme {
        RenderTheme::Default => 0,
        RenderTheme::Nord => 1,
        RenderTheme::Gruvbox => 2,
        RenderTheme::Grayscale => 3,
    }
}

} // verus!
