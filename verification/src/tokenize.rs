//! Splitting the input on runs of blank characters.
//!
//! The input is cut into segments: maximal runs of non-blank characters.
//! Any contiguous run of blanks acts as a single delimiter, and leading or
//! trailing blanks produce no empty segments. The splitter is specified as
//! a left fold of a two-field state (finished segments, current segment)
//! over the characters of the input.

use vstd::prelude::*;

verus! {

/// Whether `c` is a blank: a space, a tab or a newline.
pub open spec fn is_blank(c: char) -> bool {
    c == ' ' || c == '\t' || c == '\n'
}

/// The state of the splitter after some prefix of the input: the segments
/// already finished, and the non-blank run currently being read.
#[verifier::ext_equal]
pub struct SplitState {
    /// The segments finished so far, in input order.
    pub done: Seq<Seq<char>>,
    /// The characters of the current non-blank run; empty when the last
    /// character seen was a blank (or none was seen yet).
    pub cur: Seq<char>,
}

/// One step of the splitter: a blank finishes the current segment (if any);
/// any other character extends it.
pub open spec fn split_step(st: SplitState, c: char) -> SplitState {
    if is_blank(c) {
        if st.cur.len() == 0 {
            st
        } else {
            SplitState { done: st.done.push(st.cur), cur: Seq::empty() }
        }
    } else {
        SplitState { done: st.done, cur: st.cur.push(c) }
    }
}

/// The splitter's state after the first `n` characters of `s`.
pub open spec fn split_state(s: Seq<char>, n: int) -> SplitState
    decreases n,
{
    if n <= 0 {
        SplitState { done: Seq::empty(), cur: Seq::empty() }
    } else {
        split_step(split_state(s, n - 1), s[n - 1])
    }
}

/// The segments of `s`: the finished segments after the whole input, plus
/// the final run if the input did not end with a blank.
pub open spec fn segments_of(s: Seq<char>) -> Seq<Seq<char>> {
    let st = split_state(s, s.len() as int);
    if st.cur.len() == 0 {
        st.done
    } else {
        st.done.push(st.cur)
    }
}

/// The splitter's state depends only on the characters already read: two
/// inputs that agree on their first `n` characters reach the same state.
pub proof fn lemma_split_state_prefix(s1: Seq<char>, s2: Seq<char>, n: int)
    requires
        n <= s1.len(),
        n <= s2.len(),
        forall|i: int| 0 <= i < n ==> s1[i] == s2[i],
    ensures
        split_state(s1, n) == split_state(s2, n),
    decreases n,
{
    if n > 0 {
        lemma_split_state_prefix(s1, s2, n - 1);
    }
}

/// Removing one blank out of a run of two changes no state from the run
/// onward: the states of `s.remove(i)` trail those of `s` by one position.
proof fn lemma_split_state_shift(s: Seq<char>, i: int, j: int)
    requires
        0 <= i,
        i + 1 < s.len(),
        is_blank(s[i]),
        is_blank(s[i + 1]),
        i + 1 <= j <= s.len() - 1,
    ensures
        split_state(s.remove(i), j) == split_state(s, j + 1),
    decreases j,
{
    let t = s.remove(i);
    s.remove_ensures(i);
    if j == i + 1 {
        lemma_split_state_prefix(t, s, i);
        let st = split_state(s, i);
        assert(t[i] == s[i + 1]);
        assert(split_state(t, i + 1) == split_step(st, s[i + 1]));
        assert(split_state(s, i + 1) == split_step(st, s[i]));
        assert(split_state(s, i + 2) == split_step(split_step(st, s[i]), s[i + 1]));
        assert(split_step(st, s[i]).cur.len() == 0);
    } else {
        lemma_split_state_shift(s, i, j - 1);
        assert(t[j - 1] == s[j]);
    }
}

/// Blank-run collapsing: dropping one blank that stands right before
/// another blank leaves the segments unchanged, so a run of blanks acts as
/// a single separator.
pub proof fn lemma_blank_run_collapse(s: Seq<char>, i: int)
    requires
        0 <= i,
        i + 1 < s.len(),
        is_blank(s[i]),
        is_blank(s[i + 1]),
    ensures
        segments_of(s.remove(i)) == segments_of(s),
{
    s.remove_ensures(i);
    lemma_split_state_shift(s, i, s.len() - 1);
}

/// Whether `c` is a blank: a space, a tab or a newline.
pub fn is_blank_char(c: char) -> (r: bool)
    ensures
        r == is_blank(c),
{
    c == ' ' || c == '\t' || c == '\n'
}

/// Splits `input` into its maximal non-blank segments, in order.
pub fn split_segments(input: &str) -> (r: Vec<String>)
    ensures
        r.deep_view() == segments_of(input@),
{
    let n = input.unicode_len();
    let mut segs: Vec<String> = Vec::new();
    let mut start: usize = 0;
    let mut in_run = false;
    let mut i: usize = 0;
    while i < n
        invariant
            i <= n,
            n == input@.len(),
            segs.deep_view() =~= split_state(input@, i as int).done,
            in_run ==> start < i && split_state(input@, i as int).cur =~= input@.subrange(
                start as int,
                i as int,
            ),
            !in_run ==> split_state(input@, i as int).cur.len() == 0,
        decreases n - i,
    {
        let c = input.get_char(i);
        let ghost st_old = split_state(input@, i as int);
        proof {
            assert(split_state(input@, i as int + 1) == split_step(st_old, input@[i as int]));
        }
        if is_blank_char(c) {
            if in_run {
                let t = input.substring_char(start, i);
                segs.push(String::from_str(t));
                in_run = false;
                proof {
                    assert(segs.deep_view() =~= st_old.done.push(st_old.cur));
                }
            }
        } else {
            if !in_run {
                start = i;
                in_run = true;
            }
            proof {
                assert(st_old.cur.push(input@[i as int]) =~= input@.subrange(
                    start as int,
                    i as int + 1,
                ));
            }
        }
        i = i + 1;
    }
    if in_run {
        let t = input.substring_char(start, n);
        segs.push(String::from_str(t));
    }
    proof {
        assert(segs.deep_view() =~= segments_of(input@));
    }
    segs
}

} // verus!
