//! Reading configuration values out of the text of environment variables: numbers and
//! booleans with surrounding whitespace ignored, comma-separated lists, and optional texts.
use vstd::prelude::*;
use vstd::string::*;

use crate::pagination::{parse_u64, parsed_u64};
use crate::text::{all_space, chars_of, is_blank, str_eq, string_of, trim, trim_str};

verus! {

/// The number that a variable's text gives: its trimmed text read as `str::parse::<u64>`
/// reads it; `None` when that fails.
pub open spec fn env_u64_of(text: Seq<char>) -> Option<u64> {
    match parsed_u64(trim(text)) {
        Ok(v) => Some(v),
        Err(_) => None,
    }
}

/// The same for a type whose largest value is `max`.
pub open spec fn env_bounded_of(text: Seq<char>, max: int) -> Option<u64> {
    match env_u64_of(text) {
        Some(v) => if v <= max {
            Some(v)
        } else {
            None
        },
        None => None,
    }
}

/// An unsigned number from a variable's text.
pub fn env_u64(text: &str) -> (r: Option<u64>)
    ensures
        r == env_u64_of(text@),
{
    let t = trim_str(text);
    match parse_u64(t.as_str()) {
        Ok(v) => Some(v),
        Err(_) => None,
    }
}

/// A `u32` from a variable's text (`None` also when the number exceeds `u32::MAX`).
pub fn env_u32(text: &str) -> (r: Option<u32>)
    ensures
        r matches Some(v) ==> env_bounded_of(text@, u32::MAX as int) == Some(v as u64),
        r is None ==> env_bounded_of(text@, u32::MAX as int) is None,
{
    match env_u64(text) {
        Some(v) => if v <= 4294967295 {
            Some(v as u32)
        } else {
            None
        },
        None => None,
    }
}

/// A `usize` from a variable's text (`None` also when the number exceeds `usize::MAX`).
pub fn env_usize(text: &str) -> (r: Option<usize>)
    ensures
        r matches Some(v) ==> env_bounded_of(text@, usize::MAX as int) == Some(v as u64),
        r is None ==> env_bounded_of(text@, usize::MAX as int) is None,
{
    match env_u64(text) {
        Some(v) => if v as u128 <= usize::MAX as u128 {
            Some(v as usize)
        } else {
            None
        },
        None => None,
    }
}

/// What `str::parse::<i64>` gives for `s`: an optional sign (`+` or `-`) and decimal digits,
/// within the range of `i64`.
pub open spec fn parsed_i64(s: Seq<char>) -> Option<i64> {
    if s.len() > 0 && s[0] == '-' {
        let d = s.drop_first();
        if d.len() > 0 && d[0] == '+' {
            None
        } else {
            match parsed_u64(d) {
                Ok(v) => if v <= 9223372036854775808 {
                    Some((-(v as int)) as i64)
                } else {
                    None
                },
                Err(_) => None,
            }
        }
    } else {
        match parsed_u64(s) {
            Ok(v) => if v <= 9223372036854775807 {
                Some(v as i64)
            } else {
                None
            },
            Err(_) => None,
        }
    }
}

/// A signed number from a variable's text: its trimmed text read as `str::parse::<i64>`.
pub fn env_i64(text: &str) -> (r: Option<i64>)
    ensures
        r == parsed_i64(trim(text@)),
{
    let t = trim_str(text);
    let cs = chars_of(t.as_str());
    if cs.len() > 0 && cs[0] == '-' {
        let rest = string_of(&cs, 1, cs.len());
        assert(rest@ == t@.drop_first());
        let rc = chars_of(rest.as_str());
        if rc.len() > 0 && rc[0] == '+' {
            return None;
        }
        match parse_u64(rest.as_str()) {
            Ok(v) => if v == 9223372036854775808 {
                Some(i64::MIN)
            } else if v < 9223372036854775808 {
                Some(-(v as i64))
            } else {
                None
            },
            Err(_) => None,
        }
    } else {
        match parse_u64(t.as_str()) {
            Ok(v) => if v <= 9223372036854775807 {
                Some(v as i64)
            } else {
                None
            },
            Err(_) => None,
        }
    }
}

/// A boolean from a variable's text: its trimmed text read as `str::parse::<bool>` reads it
/// (`true` or `false`, nothing else).
pub fn env_bool(text: &str) -> (r: Option<bool>)
    ensures
        r == (if trim(text@) == "true"@ {
            Some(true)
        } else if trim(text@) == "false"@ {
            Some(false)
        } else {
            None
        }),
{
    let t = trim_str(text);
    if str_eq(t.as_str(), "true") {
        Some(true)
    } else if str_eq(t.as_str(), "false") {
        Some(false)
    } else {
        None
    }
}

/// A text that counts only when it is not blank.
pub fn env_nonblank(text: String) -> (r: Option<String>)
    ensures
        r is None <==> all_space(text@),
        r matches Some(v) ==> v == text,
{
    if is_blank(text.as_str()) {
        None
    } else {
        Some(text)
    }
}

/// The pieces of `s` between its commas, as `str::split(',')` gives them (one piece, `s`
/// itself, when there is no comma).
pub open spec fn comma_pieces(s: Seq<char>) -> Seq<Seq<char>>
    decreases s.len(),
{
    if s.len() == 0 {
        seq![Seq::empty()]
    } else {
        let p = comma_pieces(s.drop_last());
        if s.last() == ',' {
            p.push(Seq::empty())
        } else {
            p.update(p.len() - 1, p.last().push(s.last()))
        }
    }
}

/// The pieces, each trimmed, without those that are blank.
pub open spec fn kept_items(ps: Seq<Seq<char>>) -> Seq<Seq<char>>
    decreases ps.len(),
{
    if ps.len() == 0 {
        Seq::empty()
    } else {
        let r = kept_items(ps.drop_last());
        if trim(ps.last()).len() > 0 {
            r.push(trim(ps.last()))
        } else {
            r
        }
    }
}

/// The items of a comma-separated list: each element trimmed, blank elements dropped.
pub open spec fn list_items(s: Seq<char>) -> Seq<Seq<char>> {
    kept_items(comma_pieces(s))
}

proof fn lemma_pieces_nonempty(s: Seq<char>)
    ensures
        comma_pieces(s).len() >= 1,
    decreases s.len(),
{
    if s.len() > 0 {
        lemma_pieces_nonempty(s.drop_last());
    }
}

/// The items of a comma-separated list (see `list_items`).
pub fn env_list(text: &str) -> (items: Vec<String>)
    ensures
        items@.map_values(|x: String| x@) == list_items(text@),
{
    let cs = chars_of(text);
    let mut items: Vec<String> = Vec::new();
    let mut start: usize = 0;
    let mut k: usize = 0;
    proof {
        assert(cs@.take(0) =~= Seq::<char>::empty());
        assert(items@.map_values(|x: String| x@) =~= Seq::<Seq<char>>::empty());
        assert(cs@.subrange(0, 0) =~= Seq::<char>::empty());
    }
    while k < cs.len()
        invariant
            cs@ == text@,
            start <= k <= cs@.len(),
            comma_pieces(cs@.take(k as int)).len() >= 1,
            items@.map_values(|x: String| x@) == kept_items(comma_pieces(cs@.take(k as int)).drop_last()),
            comma_pieces(cs@.take(k as int)).last() == cs@.subrange(start as int, k as int),
        decreases cs@.len() - k,
    {
        let ghost before = cs@.take(k as int);
        let ghost after = cs@.take(k + 1);
        proof {
            assert(after.drop_last() =~= before);
            assert(after.last() == cs@[k as int]);
            lemma_pieces_nonempty(after);
        }
        let c = cs[k];
        if c == ',' {
            let piece = string_of(&cs, start, k);
            let t = trim_str(piece.as_str());
            let ghost old_items = items@.map_values(|x: String| x@);
            proof {
                let p = comma_pieces(before);
                assert(comma_pieces(after) == p.push(Seq::empty()));
                assert(comma_pieces(after).drop_last() =~= p);
                assert(p.drop_last().push(p.last()) =~= p);
            }
            if t.as_str().unicode_len() > 0 {
                items.push(t);
                proof {
                    assert(items@.map_values(|x: String| x@) =~= old_items.push(trim(piece@)));
                }
            }
            start = k + 1;
            proof {
                assert(cs@.subrange(start as int, k + 1) =~= Seq::<char>::empty());
            }
        } else {
            proof {
                let p = comma_pieces(before);
                assert(comma_pieces(after) == p.update(p.len() - 1, p.last().push(c)));
                assert(comma_pieces(after).drop_last() =~= p.drop_last());
                assert(cs@.subrange(start as int, k + 1) =~= cs@.subrange(start as int, k as int).push(c));
            }
        }
        k = k + 1;
    }
    let piece = string_of(&cs, start, cs.len());
    let t = trim_str(piece.as_str());
    let ghost old_items = items@.map_values(|x: String| x@);
    proof {
        assert(cs@.take(cs@.len() as int) =~= cs@);
        let p = comma_pieces(cs@);
        assert(p.drop_last().push(p.last()) =~= p);
    }
    if t.as_str().unicode_len() > 0 {
        items.push(t);
        proof {
            assert(items@.map_values(|x: String| x@) =~= old_items.push(trim(piece@)));
        }
    }
    items
}

} // verus!
