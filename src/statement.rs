use vstd::prelude::*;
use vstd::slice::{slice_subrange, slice_to_vec};

use crate::geometry::{Scalar, Vector2, Vector3};
use crate::text::{
    at, byte_is, content_end, decimal_end, digits_end, digits_value, scan_content, scan_decimal,
    scan_decimal_literal, scan_word, word_end,
};

verus! {

/// The text that a byte sequence encodes as UTF-8, or `None` where it is not
/// valid UTF-8.
pub uninterp spec fn utf8_text(b: Seq<u8>) -> Option<Seq<char>>;

/// Relies on `String::from_utf8`: it succeeds exactly on valid UTF-8, and
/// its result depends on the bytes alone.
#[verifier::external_body]
fn decode_utf8(b: Vec<u8>) -> (r: Option<String>)
    ensures
        r matches Some(t) ==> utf8_text(b@) == Some(t@),
        r is None ==> utf8_text(b@) is None,
{
    String::from_utf8(b).ok()
}

/// The bytes `s[a..b)`, decoded as UTF-8.
pub fn decode_span(s: &[u8], a: usize, b: usize) -> (r: Option<String>)
    requires
        a <= b <= s@.len(),
    ensures
        r matches Some(t) ==> utf8_text(s@.subrange(a as int, b as int)) == Some(t@),
        r is None ==> utf8_text(s@.subrange(a as int, b as int)) is None,
{
    decode_utf8(slice_to_vec(slice_subrange(s, a, b)))
}

pub fn scalar_of(s: &[u8], a: usize, b: usize) -> (r: Scalar)
    requires
        a <= b <= s@.len(),
    ensures
        r@ == s@.subrange(a as int, b as int),
{
    Scalar { text: slice_to_vec(slice_subrange(s, a, b)) }
}

/// Three decimal literals separated by single spaces, from `a` on.
pub open spec fn vec3_at(s: Seq<u8>, a: int) -> Option<((Seq<u8>, Seq<u8>, Seq<u8>), int)> {
    match decimal_end(s, a) {
        Some(e1) => if at(s, e1, 32) {
            match decimal_end(s, e1 + 1) {
                Some(e2) => if at(s, e2, 32) {
                    match decimal_end(s, e2 + 1) {
                        Some(e3) => Some(
                            (
                                (
                                    s.subrange(a, e1),
                                    s.subrange(e1 + 1, e2),
                                    s.subrange(e2 + 1, e3),
                                ),
                                e3,
                            ),
                        ),
                        None => None,
                    }
                } else {
                    None
                },
                None => None,
            }
        } else {
            None
        },
        None => None,
    }
}

/// One decimal literal, then optionally a space and a second one; the
/// second is `0` where it is missing.
pub open spec fn vec2_at(s: Seq<u8>, a: int) -> Option<((Seq<u8>, Seq<u8>), int)> {
    match decimal_end(s, a) {
        Some(e1) => {
            if at(s, e1, 32) && decimal_end(s, e1 + 1) is Some {
                let e2 = decimal_end(s, e1 + 1)->Some_0;
                Some(((s.subrange(a, e1), s.subrange(e1 + 1, e2)), e2))
            } else {
                Some(((s.subrange(a, e1), seq![48u8]), e1))
            }
        },
        None => None,
    }
}

/// A smoothing group: a decimal number that fits `u32`, or `off` for 0.
pub open spec fn smoothing_at(s: Seq<u8>, a: int) -> Option<(u32, int)> {
    let e = digits_end(s, a);
    if e > a && digits_value(s, a, e) <= u32::MAX {
        Some((digits_value(s, a, e) as u32, e))
    } else if at(s, a, 111) && at(s, a + 1, 102) && at(s, a + 2, 102) {
        Some((0, a + 3))
    } else {
        None
    }
}

/// A non-empty UTF-8 text running to the end of the line.
pub open spec fn text_at(s: Seq<u8>, a: int) -> Option<(Seq<char>, int)> {
    let c = content_end(s, a);
    if c > a {
        match utf8_text(s.subrange(a, c)) {
            Some(t) => Some((t, c)),
            None => None,
        }
    } else {
        None
    }
}

/// The spans of the words that follow `e`, each after one space.
pub open spec fn more_words(s: Seq<u8>, e: int) -> (Seq<(int, int)>, int)
    decreases s.len() - e,
{
    if at(s, e, 32) && e + 1 < word_end(s, e + 1) <= s.len() {
        let rest = more_words(s, word_end(s, e + 1));
        (seq![(e + 1, word_end(s, e + 1))] + rest.0, rest.1)
    } else {
        (Seq::empty(), e)
    }
}

/// The spans of the words of a group statement from `a` on: one or more,
/// separated by single spaces.
pub open spec fn word_spans_at(s: Seq<u8>, a: int) -> Option<(Seq<(int, int)>, int)> {
    let e = word_end(s, a);
    if e > a {
        let rest = more_words(s, e);
        Some((seq![(a, e)] + rest.0, rest.1))
    } else {
        None
    }
}

/// The group names from `a` on, where each is valid UTF-8.
pub open spec fn groups_at(s: Seq<u8>, a: int) -> Option<(Seq<Seq<char>>, int)> {
    match word_spans_at(s, a) {
        Some((spans, e)) => if forall|k: int|
            0 <= k < spans.len() ==> (#[trigger] utf8_text(
                s.subrange(spans[k].0, spans[k].1),
            )) is Some {
            Some(
                (
                    spans.map_values(
                        |sp: (int, int)| utf8_text(s.subrange(sp.0, sp.1))->Some_0,
                    ),
                    e,
                ),
            )
        } else {
            None
        },
        None => None,
    }
}

/// Reads three decimal literals separated by single spaces.
pub fn parse_vec3(s: &[u8], a: usize) -> (r: Option<(Vector3, usize)>)
    requires
        a <= s@.len(),
    ensures
        r matches Some((v, e)) ==> vec3_at(s@, a as int) == Some((v@, e as int)) && a < e
            <= s@.len(),
        r is None ==> vec3_at(s@, a as int) is None,
{
    let len = s.len();
    let e1 = scan_decimal_literal(s, a)?;
    if !byte_is(s, e1, 32) {
        return None;
    }
    let e2 = scan_decimal_literal(s, e1 + 1)?;
    if !byte_is(s, e2, 32) {
        return None;
    }
    let e3 = scan_decimal_literal(s, e2 + 1)?;
    let v = Vector3 { x: scalar_of(s, a, e1), y: scalar_of(s, e1 + 1, e2), z: scalar_of(s, e2 + 1, e3) };
    Some((v, e3))
}

/// Reads one or two decimal literals separated by a single space.
pub fn parse_vec2(s: &[u8], a: usize) -> (r: Option<(Vector2, usize)>)
    requires
        a <= s@.len(),
    ensures
        r matches Some((v, e)) ==> vec2_at(s@, a as int) == Some((v@, e as int)) && a < e
            <= s@.len(),
        r is None ==> vec2_at(s@, a as int) is None,
{
    let len = s.len();
    let e1 = scan_decimal_literal(s, a)?;
    if byte_is(s, e1, 32) {
        match scan_decimal_literal(s, e1 + 1) {
            Some(e2) => {
                return Some((Vector2 { x: scalar_of(s, a, e1), y: scalar_of(s, e1 + 1, e2) }, e2));
            },
            None => {},
        }
    }
    let zero = Scalar { text: vec![48u8] };
    assert(zero@ =~= seq![48u8]);
    Some((Vector2 { x: scalar_of(s, a, e1), y: zero }, e1))
}

/// Reads a smoothing group.
pub fn parse_smoothing(s: &[u8], a: usize) -> (r: Option<(u32, usize)>)
    requires
        a <= s@.len(),
    ensures
        r matches Some((g, e)) ==> smoothing_at(s@, a as int) == Some((g, e as int)) && a < e
            <= s@.len(),
        r is None ==> smoothing_at(s@, a as int) is None,
{
    let len = s.len();
    let (e, m) = scan_decimal(s, a, 0xffff_ffff);
    if e > a {
        if let Some(m) = m {
            return Some((m as u32, e));
        }
    }
    if byte_is(s, a, 111) && byte_is(s, a + 1, 102) && byte_is(s, a + 2, 102) {
        Some((0, a + 3))
    } else {
        None
    }
}

/// Reads a non-empty UTF-8 text running to the end of the line.
pub fn parse_text(s: &[u8], a: usize) -> (r: Option<(String, usize)>)
    requires
        a <= s@.len(),
    ensures
        r matches Some((t, e)) ==> text_at(s@, a as int) == Some((t@, e as int)) && a < e
            <= s@.len(),
        r is None ==> text_at(s@, a as int) is None,
{
    let c = scan_content(s, a);
    if c > a {
        match decode_span(s, a, c) {
            Some(t) => Some((t, c)),
            None => None,
        }
    } else {
        None
    }
}

/// Reads the spans of the words of a group statement.
fn parse_word_spans(s: &[u8], a: usize) -> (r: Option<(Vec<(usize, usize)>, usize)>)
    requires
        a <= s@.len(),
    ensures
        r matches Some((spans, e)) ==> word_spans_at(s@, a as int) == Some(
            (spans@.map_values(|sp: (usize, usize)| (sp.0 as int, sp.1 as int)), e as int),
        ) && a < e <= s@.len() && forall|k: int|
            0 <= k < spans@.len() ==> (#[trigger] spans@[k]).0 <= spans@[k].1 <= s@.len(),
        r is None ==> word_spans_at(s@, a as int) is None,
{
    let len = s.len();
    let e0 = scan_word(s, a);
    if e0 == a {
        return None;
    }
    let ghost conv = |sp: (usize, usize)| (sp.0 as int, sp.1 as int);
    let ghost whole = more_words(s@, e0 as int);
    let mut spans: Vec<(usize, usize)> = Vec::new();
    spans.push((a, e0));
    let mut e = e0;
    loop
        invariant
            a < e0 <= e <= s@.len(),
            len == s@.len(),
            conv == (|sp: (usize, usize)| (sp.0 as int, sp.1 as int)),
            whole == more_words(s@, e0 as int),
            seq![(a as int, e0 as int)] + whole.0 == spans@.map_values(conv) + more_words(
                s@,
                e as int,
            ).0,
            whole.1 == more_words(s@, e as int).1,
            forall|k: int| 0 <= k < spans@.len() ==> (#[trigger] spans@[k]).0 <= spans@[k].1 <= s@.len(),
        ensures
            a < e0 <= e <= s@.len(),
            seq![(a as int, e0 as int)] + whole.0 == spans@.map_values(conv) + more_words(
                s@,
                e as int,
            ).0,
            whole.1 == more_words(s@, e as int).1,
            forall|k: int| 0 <= k < spans@.len() ==> (#[trigger] spans@[k]).0 <= spans@[k].1 <= s@.len(),
            more_words(s@, e as int).0 == Seq::<(int, int)>::empty(),
        decreases s@.len() - e,
    {
        if !byte_is(s, e, 32) {
            break ;
        }
        let w = scan_word(s, e + 1);
        if w == e + 1 {
            break ;
        }
        let ghost before = spans@;
        spans.push((e + 1, w));
        assert(spans@.map_values(conv) =~= before.map_values(conv).push((e + 1, w as int)));
        assert(more_words(s@, e as int).0 == seq![(e + 1, w as int)] + more_words(s@, w as int).0);
        assert(before.map_values(conv).push((e + 1, w as int)) + more_words(s@, w as int).0
            =~= before.map_values(conv) + (seq![(e + 1, w as int)] + more_words(s@, w as int).0));
        e = w;
    }
    assert(more_words(s@, e as int).0 == Seq::<(int, int)>::empty());
    assert(spans@.map_values(conv) + Seq::<(int, int)>::empty() =~= spans@.map_values(conv));
    Some((spans, e))
}

/// Reads the group names of a group statement.
pub fn parse_groups(s: &[u8], a: usize) -> (r: Option<(Vec<String>, usize)>)
    requires
        a <= s@.len(),
    ensures
        r matches Some((gs, e)) ==> groups_at(s@, a as int) == Some(
            (gs@.map_values(|g: String| g@), e as int),
        ) && a < e <= s@.len(),
        r is None ==> groups_at(s@, a as int) is None,
{
    let (spans, e) = parse_word_spans(s, a)?;
    let ghost ispans = spans@.map_values(|sp: (usize, usize)| (sp.0 as int, sp.1 as int));
    let mut groups: Vec<String> = Vec::new();
    let mut k: usize = 0;
    while k < spans.len()
        invariant
            0 <= k <= spans@.len(),
            ispans == spans@.map_values(|sp: (usize, usize)| (sp.0 as int, sp.1 as int)),
            word_spans_at(s@, a as int) == Some((ispans, e as int)),
            forall|j: int| 0 <= j < spans@.len() ==> (#[trigger] spans@[j]).0 <= spans@[j].1 <= s@.len(),
            groups@.len() == k,
            forall|j: int|
                0 <= j < k ==> utf8_text(s@.subrange(ispans[j].0, ispans[j].1)) == Some(
                    (#[trigger] groups@[j])@,
                ),
        decreases spans@.len() - k,
    {
        let (b, c) = spans[k];
        match decode_span(s, b, c) {
            Some(t) => {
                groups.push(t);
            },
            None => {
                assert(utf8_text(s@.subrange(ispans[k as int].0, ispans[k as int].1)) is None);
                return None;
            },
        }
        k = k + 1;
    }
    assert forall|j: int| 0 <= j < ispans.len() implies (#[trigger] utf8_text(
        s@.subrange(ispans[j].0, ispans[j].1),
    )) is Some by {
        assert(utf8_text(s@.subrange(ispans[j].0, ispans[j].1)) == Some(groups@[j]@));
    }
    assert(gs_view_eq(s@, ispans, groups@)) by {
        assert(groups@.map_values(|g: String| g@) =~= ispans.map_values(
            |sp: (int, int)| utf8_text(s@.subrange(sp.0, sp.1))->Some_0,
        ));
    }
    Some((groups, e))
}

spec fn gs_view_eq(s: Seq<u8>, ispans: Seq<(int, int)>, groups: Seq<String>) -> bool {
    groups.map_values(|g: String| g@) == ispans.map_values(
        |sp: (int, int)| utf8_text(s.subrange(sp.0, sp.1))->Some_0,
    )
}

} // verus!
