//! Select Graphic Rendition: the parameters of `CSI … m`, read as a list of
//! style changes and applied to a style.
use vstd::prelude::*;

use super::cells::{default_style, Style};
use super::{BOLD, DIM, INVERT, ITALIC, STRIKETHROUGH, UNDERLINE};
use crate::colors;

verus! {

/// One change of style.
#[derive(Clone, Copy, Debug)]
pub enum StyleAction {
    Reset,
    ModeSet(u16),
    SetFg([u8; 3]),
    SetBg([u8; 3]),
}

/// `x`, or 255 where `x` is larger.
pub open spec fn clamp_byte(x: u16) -> u8 {
    if x > 255 { 255u8 } else { x as u8 }
}

/// An extended colour after 38 or 48: `5;n` picks entry `n` of the 256-colour
/// palette, `2;r;g;b` gives the channels. Returns the colour and how many
/// parameters it took.
pub open spec fn extended_color(s: Seq<u16>) -> Option<([u8; 3], nat)> {
    if s.len() >= 2 && s[0] == 5 {
        Some((colors::palette_256(clamp_byte(s[1])), 2))
    } else if s.len() >= 4 && s[0] == 2 {
        Some(([clamp_byte(s[1]), clamp_byte(s[2]), clamp_byte(s[3])], 4))
    } else {
        None
    }
}

/// The style change at the start of `s` and how many parameters it took, or
/// `None` where `s` does not start with one.
pub open spec fn sgr_item(s: Seq<u16>) -> Option<(StyleAction, nat)> {
    if s.len() == 0 {
        None
    } else {
        let h = s[0];
        if h == 0 {
            Some((StyleAction::Reset, 1))
        } else if 1 <= h < 10 {
            Some((StyleAction::ModeSet(h), 1))
        } else if 30 <= h <= 37 {
            Some((StyleAction::SetFg(colors::basic_palette()[h - 30]), 1))
        } else if h == 38 {
            match extended_color(s.drop_first()) {
                Some((c, n)) => Some((StyleAction::SetFg(c), n + 1)),
                None => None,
            }
        } else if h == 39 {
            Some((StyleAction::SetFg(colors::FOREGROUND), 1))
        } else if 40 <= h <= 47 {
            Some((StyleAction::SetBg(colors::basic_palette()[h - 40]), 1))
        } else if h == 48 {
            match extended_color(s.drop_first()) {
                Some((c, n)) => Some((StyleAction::SetBg(c), n + 1)),
                None => None,
            }
        } else if h == 49 {
            Some((StyleAction::SetBg(colors::BACKGROUND), 1))
        } else if 90 <= h <= 97 {
            Some((StyleAction::SetFg(colors::basic_palette()[h - 82]), 1))
        } else if 100 <= h <= 107 {
            Some((StyleAction::SetBg(colors::basic_palette()[h - 92]), 1))
        } else {
            None
        }
    }
}

/// The style changes that the whole of `s` spells, or `None` where some part of it
/// is not one.
pub open spec fn sgr_actions(s: Seq<u16>) -> Option<Seq<StyleAction>>
    decreases s.len(),
{
    if s.len() == 0 {
        Some(seq![])
    } else {
        match sgr_item(s) {
            None => None,
            Some((a, n)) => if 1 <= n <= s.len() {
                match sgr_actions(s.skip(n as int)) {
                    None => None,
                    Some(rest) => Some(seq![a] + rest),
                }
            } else {
                None
            },
        }
    }
}

proof fn lemma_item_extend(u: Seq<u16>, t: Seq<u16>)
    requires
        sgr_item(u) is Some,
        sgr_item(u).unwrap().1 <= u.len(),
    ensures
        sgr_item(u + t) == sgr_item(u),
{
    let v = u + t;
    assert(v[0] == u[0]);
    let x = u.drop_first();
    assert(v.drop_first() =~= x + t);
    if u[0] == 38 || u[0] == 48 {
        let y = x + t;
        if x.len() >= 2 {
            assert(y[0] == x[0] && y[1] == x[1]);
        }
        if x.len() >= 4 {
            assert(y[2] == x[2] && y[3] == x[3]);
        }
    }
}

proof fn lemma_actions_append(s: Seq<u16>, t: Seq<u16>)
    requires
        sgr_actions(s) is Some,
        sgr_actions(t) is Some,
    ensures
        sgr_actions(s + t) == Some(sgr_actions(s).unwrap() + sgr_actions(t).unwrap()),
    decreases s.len(),
{
    if s.len() == 0 {
        assert(s + t =~= t);
        assert(sgr_actions(s).unwrap() + sgr_actions(t).unwrap() =~= sgr_actions(t).unwrap());
    } else {
        let (a, n) = sgr_item(s).unwrap();
        lemma_item_extend(s, t);
        assert((s + t).skip(n as int) =~= s.skip(n as int) + t);
        lemma_actions_append(s.skip(n as int), t);
        let rest = sgr_actions(s.skip(n as int)).unwrap();
        assert(seq![a] + (rest + sgr_actions(t).unwrap()) =~= (seq![a] + rest) + sgr_actions(t).unwrap());
    }
}

proof fn lemma_apply_append(st: Style, a: Seq<StyleAction>, b: Seq<StyleAction>)
    ensures
        apply_actions(st, a + b) == apply_actions(apply_actions(st, a), b),
    decreases a.len(),
{
    if a.len() == 0 {
        assert(a + b =~= b);
    } else {
        assert((a + b).drop_first() =~= a.drop_first() + b);
        lemma_apply_append(apply_action(st, a[0]), a.drop_first(), b);
    }
}

/// Parameters that form style changes, followed by a 0, still form style changes,
/// and these leave the default style whatever the style was before.
pub proof fn trailing_zero_resets(s: Seq<u16>, st: Style)
    requires
        sgr_actions(s) is Some,
    ensures
        sgr_actions(s.push(0)) is Some,
        apply_actions(st, sgr_actions(s.push(0)).unwrap()) == default_style(),
{
    let z = seq![0u16];
    assert(sgr_item(z) == Some((StyleAction::Reset, 1nat)));
    assert(z.skip(1) =~= Seq::<u16>::empty());
    assert(sgr_actions(Seq::<u16>::empty()) == Some(Seq::<StyleAction>::empty()));
    assert(sgr_actions(z) == Some(seq![StyleAction::Reset] + Seq::<StyleAction>::empty()));
    assert(s.push(0) =~= s + z);
    lemma_actions_append(s, z);
    let a = sgr_actions(s).unwrap();
    assert(seq![StyleAction::Reset] + Seq::<StyleAction>::empty() =~= seq![StyleAction::Reset]);
    lemma_apply_append(st, a, seq![StyleAction::Reset]);
    let r = seq![StyleAction::Reset];
    assert(r.drop_first() =~= Seq::<StyleAction>::empty());
    let x = apply_actions(st, a);
    assert(apply_actions(x, r) == apply_actions(apply_action(x, StyleAction::Reset), Seq::<StyleAction>::empty()));
}

proof fn lemma_one_item(s: Seq<u16>, st: Style)
    requires
        sgr_item(s) is Some,
        sgr_item(s).unwrap().1 == s.len(),
        s.len() >= 1,
    ensures
        sgr_actions(s) == Some(seq![sgr_item(s).unwrap().0]),
        apply_actions(st, seq![sgr_item(s).unwrap().0]) == apply_action(st, sgr_item(s).unwrap().0),
{
    let a = sgr_item(s).unwrap().0;
    assert(s.skip(s.len() as int) =~= Seq::<u16>::empty());
    assert(sgr_actions(Seq::<u16>::empty()) == Some(Seq::<StyleAction>::empty()));
    assert(seq![a] + Seq::<StyleAction>::empty() =~= seq![a]);
    assert(seq![a].drop_first() =~= Seq::<StyleAction>::empty());
    assert(seq![a][0] == a);
    assert(apply_actions(st, seq![a]) == apply_actions(apply_action(st, a), Seq::<StyleAction>::empty()));
}

/// What a single SGR parameter does to any style: 0 resets; 1, 2, 3, 4, 7 and 9 set
/// bold, dim, italic, underline, invert and strike-through, and 5, 6 and 8 change
/// nothing; 30 to 37 and 90 to 97 set the foreground to basic colour `n - 30` and
/// bright colour `n - 90` (entry `n - 82`), 40 to 47 and 100 to 107 the background
/// likewise, each keeping the other colour and the flags; 39 and 49 restore the
/// default foreground and background. Any other number alone is no style change, and
/// then the parameters are ignored.
pub proof fn single_parameter(st: Style, n: u16)
    ensures
        ({
            let r = sgr_actions(seq![n]);
            &&& n == 0 ==> r is Some && apply_actions(st, r.unwrap()) == default_style()
            &&& n == 1 ==> r is Some && apply_actions(st, r.unwrap()) == Style { flags: st.flags | 1, ..st }
            &&& n == 2 ==> r is Some && apply_actions(st, r.unwrap()) == Style { flags: st.flags | 2, ..st }
            &&& n == 3 ==> r is Some && apply_actions(st, r.unwrap()) == Style { flags: st.flags | 4, ..st }
            &&& n == 4 ==> r is Some && apply_actions(st, r.unwrap()) == Style { flags: st.flags | 16, ..st }
            &&& n == 7 ==> r is Some && apply_actions(st, r.unwrap()) == Style { flags: st.flags | 8, ..st }
            &&& n == 9 ==> r is Some && apply_actions(st, r.unwrap()) == Style { flags: st.flags | 32, ..st }
            &&& (n == 5 || n == 6 || n == 8) ==> r is Some && apply_actions(st, r.unwrap()) == st
            &&& 30 <= n <= 37 ==> r is Some && apply_actions(st, r.unwrap()) == Style {
                color: colors::basic_palette()[n - 30],
                ..st
            }
            &&& 40 <= n <= 47 ==> r is Some && apply_actions(st, r.unwrap()) == Style {
                bg: colors::basic_palette()[n - 40],
                ..st
            }
            &&& 90 <= n <= 97 ==> r is Some && apply_actions(st, r.unwrap()) == Style {
                color: colors::basic_palette()[8 + (n - 90)],
                ..st
            }
            &&& 100 <= n <= 107 ==> r is Some && apply_actions(st, r.unwrap()) == Style {
                bg: colors::basic_palette()[8 + (n - 100)],
                ..st
            }
            &&& n == 39 ==> r is Some && apply_actions(st, r.unwrap()) == Style { color: colors::FOREGROUND, ..st }
            &&& n == 49 ==> r is Some && apply_actions(st, r.unwrap()) == Style { bg: colors::BACKGROUND, ..st }
            &&& !(n <= 9 || 30 <= n <= 37 || 39 <= n <= 47 || n == 49 || 90 <= n <= 97 || 100 <= n <= 107)
                ==> r is None
        }),
{
    let s = seq![n];
    if sgr_item(s) is Some {
        assert(s.drop_first() =~= Seq::<u16>::empty());
        lemma_one_item(s, st);
    } else {
        assert(sgr_actions(s) is None);
    }
}

/// An extended colour: `38;5;k` and `48;5;k` set the foreground or background to entry
/// `k` of the 256-colour palette, `38;2;r;g;b` and `48;2;r;g;b` to the colour with
/// those channels; numbers above 255 count as 255. The other colour and the flags stay.
pub proof fn extended_colour_parameters(st: Style, k: u16, r: u16, g: u16, b: u16)
    ensures
        sgr_actions(seq![38u16, 5, k]) is Some,
        apply_actions(st, sgr_actions(seq![38u16, 5, k]).unwrap()) == (Style {
            color: colors::palette_256(clamp_byte(k)),
            ..st
        }),
        sgr_actions(seq![48u16, 5, k]) is Some,
        apply_actions(st, sgr_actions(seq![48u16, 5, k]).unwrap()) == (Style {
            bg: colors::palette_256(clamp_byte(k)),
            ..st
        }),
        sgr_actions(seq![38u16, 2, r, g, b]) is Some,
        apply_actions(st, sgr_actions(seq![38u16, 2, r, g, b]).unwrap()) == (Style {
            color: [clamp_byte(r), clamp_byte(g), clamp_byte(b)],
            ..st
        }),
        sgr_actions(seq![48u16, 2, r, g, b]) is Some,
        apply_actions(st, sgr_actions(seq![48u16, 2, r, g, b]).unwrap()) == (Style {
            bg: [clamp_byte(r), clamp_byte(g), clamp_byte(b)],
            ..st
        }),
{
    let s1 = seq![38u16, 5, k];
    let s2 = seq![48u16, 5, k];
    let s3 = seq![38u16, 2, r, g, b];
    let s4 = seq![48u16, 2, r, g, b];
    assert(s1.drop_first() =~= seq![5u16, k]);
    assert(s2.drop_first() =~= seq![5u16, k]);
    assert(s3.drop_first() =~= seq![2u16, r, g, b]);
    assert(s4.drop_first() =~= seq![2u16, r, g, b]);
    lemma_one_item(s1, st);
    lemma_one_item(s2, st);
    lemma_one_item(s3, st);
    lemma_one_item(s4, st);
}

fn clamp(x: u16) -> (b: u8)
    ensures
        b == clamp_byte(x),
{
    if x > 255 {
        255
    } else {
        x as u8
    }
}

fn parse_extended(s: &Vec<u16>, pos: usize) -> (r: Option<([u8; 3], usize)>)
    requires
        pos <= s@.len(),
    ensures
        match r {
            Some((c, n)) => extended_color(s@.skip(pos as int)) == Some((c, n as nat)),
            None => extended_color(s@.skip(pos as int)) is None,
        },
{
    let rest = s.len() - pos;
    if rest >= 2 && s[pos] == 5 {
        Some((colors::eight(clamp(s[pos + 1])), 2))
    } else if rest >= 4 && s[pos] == 2 {
        Some(([clamp(s[pos + 1]), clamp(s[pos + 2]), clamp(s[pos + 3])], 4))
    } else {
        None
    }
}

fn parse_item(s: &Vec<u16>, pos: usize) -> (r: Option<(StyleAction, usize)>)
    requires
        pos < s@.len(),
    ensures
        match r {
            Some((a, n)) => sgr_item(s@.skip(pos as int)) == Some((a, n as nat)),
            None => sgr_item(s@.skip(pos as int)) is None,
        },
{
    let ghost t = s@.skip(pos as int);
    assert(t.drop_first() =~= s@.skip(pos + 1));
    let len = s.len();
    assert(pos < len);
    let h = s[pos];
    if h == 0 {
        Some((StyleAction::Reset, 1))
    } else if 1 <= h && h < 10 {
        Some((StyleAction::ModeSet(h), 1))
    } else if 30 <= h && h <= 37 {
        Some((StyleAction::SetFg(colors::four(h - 30)), 1))
    } else if h == 38 {
        match parse_extended(s, pos + 1) {
            Some((c, n)) => Some((StyleAction::SetFg(c), n + 1)),
            None => None,
        }
    } else if h == 39 {
        Some((StyleAction::SetFg(colors::FOREGROUND), 1))
    } else if 40 <= h && h <= 47 {
        Some((StyleAction::SetBg(colors::four(h - 40)), 1))
    } else if h == 48 {
        match parse_extended(s, pos + 1) {
            Some((c, n)) => Some((StyleAction::SetBg(c), n + 1)),
            None => None,
        }
    } else if h == 49 {
        Some((StyleAction::SetBg(colors::BACKGROUND), 1))
    } else if 90 <= h && h <= 97 {
        Some((StyleAction::SetFg(colors::four(h - 82)), 1))
    } else if 100 <= h && h <= 107 {
        Some((StyleAction::SetBg(colors::four(h - 92)), 1))
    } else {
        None
    }
}

/// Prepends `a` to the actions of `r`, where there are some.
pub open spec fn prepend(a: Seq<StyleAction>, r: Option<Seq<StyleAction>>) -> Option<Seq<StyleAction>> {
    match r {
        Some(rest) => Some(a + rest),
        None => None,
    }
}

/// Reads SGR parameters as style changes; `None` where they do not all form one.
pub fn parse_sgr(input: &Vec<u16>) -> (r: Option<Vec<StyleAction>>)
    ensures
        match r {
            Some(v) => sgr_actions(input@) == Some(v@),
            None => sgr_actions(input@) is None,
        },
{
    let n = input.len();
    let mut out: Vec<StyleAction> = Vec::new();
    let mut pos: usize = 0;
    assert(input@.skip(0) =~= input@);
    while pos < n
        invariant
            n == input@.len(),
            pos <= n,
            sgr_actions(input@) == prepend(out@, sgr_actions(input@.skip(pos as int))),
        decreases n - pos,
    {
        let ghost t = input@.skip(pos as int);
        match parse_item(input, pos) {
            None => {
                return None;
            },
            Some((a, k)) => {
                if k > n - pos {
                    return None;
                }
                assert(t.skip(k as int) =~= input@.skip(pos + k));
                assert(out@.push(a) =~= out@ + seq![a]);
                proof {
                    match sgr_actions(input@.skip(pos + k)) {
                        Some(rest) => {
                            assert(out@ + (seq![a] + rest) =~= out@.push(a) + rest);
                        },
                        None => {},
                    }
                }
                out.push(a);
                pos = pos + k;
            },
        }
    }
    assert(input@.skip(pos as int) =~= Seq::<u16>::empty());
    assert(out@ + seq![] =~= out@);
    Some(out)
}

/// The style after one change.
pub open spec fn apply_action(st: Style, a: StyleAction) -> Style {
    match a {
        StyleAction::Reset => default_style(),
        StyleAction::SetFg(c) => Style { color: c, ..st },
        StyleAction::SetBg(c) => Style { bg: c, ..st },
        StyleAction::ModeSet(m) => if m == 1 {
            Style { flags: st.flags | BOLD, ..st }
        } else if m == 2 {
            Style { flags: st.flags | DIM, ..st }
        } else if m == 3 {
            Style { flags: st.flags | ITALIC, ..st }
        } else if m == 4 {
            Style { flags: st.flags | UNDERLINE, ..st }
        } else if m == 7 {
            Style { flags: st.flags | INVERT, ..st }
        } else if m == 9 {
            Style { flags: st.flags | STRIKETHROUGH, ..st }
        } else if m == 22 {
            Style { flags: st.flags & !(BOLD | DIM), ..st }
        } else {
            st
        },
    }
}

/// The style after the changes of `acts`, first to last.
pub open spec fn apply_actions(st: Style, acts: Seq<StyleAction>) -> Style
    decreases acts.len(),
{
    if acts.len() == 0 {
        st
    } else {
        apply_actions(apply_action(st, acts[0]), acts.drop_first())
    }
}

/// Applies one style change.
pub fn apply(st: &mut Style, a: StyleAction)
    ensures
        *final(st) == apply_action(*old(st), a),
{
    match a {
        StyleAction::Reset => *st = Style::default(),
        StyleAction::SetFg(c) => st.color = c,
        StyleAction::SetBg(c) => st.bg = c,
        StyleAction::ModeSet(m) => {
            if m == 1 {
                st.flags = st.flags | BOLD;
            } else if m == 2 {
                st.flags = st.flags | DIM;
            } else if m == 3 {
                st.flags = st.flags | ITALIC;
            } else if m == 4 {
                st.flags = st.flags | UNDERLINE;
            } else if m == 7 {
                st.flags = st.flags | INVERT;
            } else if m == 9 {
                st.flags = st.flags | STRIKETHROUGH;
            } else if m == 22 {
                st.flags = st.flags & !(BOLD | DIM);
            }
        },
    }
}

/// Applies the style changes of `acts`, first to last.
pub fn apply_all(st: &mut Style, acts: &Vec<StyleAction>)
    ensures
        *final(st) == apply_actions(*old(st), acts@),
{
    let n = acts.len();
    assert(acts@.skip(0) =~= acts@);
    for i in 0..n
        invariant
            n == acts@.len(),
            apply_actions(*old(st), acts@) == apply_actions(*st, acts@.skip(i as int)),
    {
        let ghost rest = acts@.skip(i as int);
        apply(st, acts[i]);
        assert(rest.drop_first() =~= acts@.skip(i + 1));
    }
    assert(acts@.skip(n as int) =~= Seq::<StyleAction>::empty());
}

} // verus!
