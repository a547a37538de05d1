//! RTF-to-text stripping: control words and braces are removed, `\par`,
//! `\line` and `\tab` become line breaks and tabs, and `{\*...}` destinations
//! are skipped.
use vstd::prelude::*;
use crate::text::{chars_of, push_char, string_of};

verus! {

/// ASCII letter.
pub open spec fn is_alpha(c: char) -> bool {
    ('a' <= c && c <= 'z') || ('A' <= c && c <= 'Z')
}

/// ASCII digit.
pub open spec fn is_num(c: char) -> bool {
    '0' <= c && c <= '9'
}

/// End of the run of ASCII letters of `s` that starts at `j`.
pub open spec fn scan_alpha(s: Seq<char>, j: int) -> int
    decreases s.len() - j,
{
    if 0 <= j < s.len() && is_alpha(s[j]) {
        scan_alpha(s, j + 1)
    } else {
        j
    }
}

/// End of the run of digits and `-` of `s` that starts at `j`.
pub open spec fn scan_param(s: Seq<char>, j: int) -> int
    decreases s.len() - j,
{
    if 0 <= j < s.len() && (is_num(s[j]) || s[j] == '-') {
        scan_param(s, j + 1)
    } else {
        j
    }
}

/// The state of the stripper between characters: brace depth, and the depth
/// of the `{\*` destination being skipped, if any.
pub struct RtfState {
    pub depth: int,
    pub skip: Option<int>,
}

/// One step of the stripper at index `i` (`i < s.len()`): the index it goes
/// on from, the new state, and the text it emits.
pub open spec fn rtf_step(s: Seq<char>, i: int, st: RtfState) -> (int, RtfState, Seq<char>) {
    let ch = s[i];
    if ch == '{' {
        let d = st.depth + 1;
        let starts_skip = i + 2 < s.len() && s[i + 1] == '\\' && s[i + 2] == '*';
        let skip = if starts_skip && st.skip is None { Some(d) } else { st.skip };
        (i + 1, RtfState { depth: d, skip }, Seq::empty())
    } else if ch == '}' {
        let skip = match st.skip {
            Some(sd) => if st.depth == sd { None } else { st.skip },
            None => None,
        };
        (i + 1, RtfState { depth: st.depth - 1, skip }, Seq::empty())
    } else if ch == '\\' && st.skip is None {
        if i + 1 >= s.len() {
            (i + 1, st, Seq::empty())
        } else if s[i + 1] == '\'' {
            let next = if i + 4 <= s.len() { i + 4 } else { s.len() as int };
            (next, st, Seq::empty())
        } else if is_alpha(s[i + 1]) {
            let w_end = scan_alpha(s, i + 1);
            let word = s.subrange(i + 1, w_end);
            let p_end = scan_param(s, w_end);
            let next = if p_end < s.len() && s[p_end] == ' ' { p_end + 1 } else { p_end };
            let out = if word == seq!['p', 'a', 'r'] || word == seq!['l', 'i', 'n', 'e'] {
                seq!['\n']
            } else if word == seq!['t', 'a', 'b'] {
                seq!['\t']
            } else {
                Seq::empty()
            };
            (next, st, out)
        } else {
            let nc = s[i + 1];
            let out = if nc == '\\' || nc == '{' || nc == '}' { seq![nc] } else { Seq::empty() };
            (i + 2, st, out)
        }
    } else if st.skip is Some {
        (i + 1, st, Seq::empty())
    } else if ch == '\r' || ch == '\n' {
        (i + 1, st, Seq::empty())
    } else {
        (i + 1, st, seq![ch])
    }
}

/// Every step moves forward and stays within the input.
pub proof fn lemma_scan_bounds(s: Seq<char>, j: int)
    requires
        0 <= j <= s.len(),
    ensures
        j <= scan_alpha(s, j) <= s.len(),
        j <= scan_param(s, j) <= s.len(),
    decreases s.len() - j,
{
    if j < s.len() {
        lemma_scan_bounds(s, j + 1);
    }
}

/// A step advances by at least one and never past the end.
pub proof fn lemma_step_advances(s: Seq<char>, i: int, st: RtfState)
    requires
        0 <= i < s.len(),
    ensures
        i < rtf_step(s, i, st).0 <= s.len(),
        rtf_step(s, i, st).2.len() <= rtf_step(s, i, st).0 - i,
{
    if i + 1 < s.len() {
        lemma_scan_bounds(s, i + 1);
        let w_end = scan_alpha(s, i + 1);
        lemma_scan_bounds(s, w_end);
    }
}

/// The text emitted from index `i` on, starting in state `st`.
pub open spec fn rtf_from(s: Seq<char>, i: int, st: RtfState) -> Seq<char>
    decreases s.len() - i,
{
    if 0 <= i < s.len() {
        let (next, st2, out) = rtf_step(s, i, st);
        if i < next <= s.len() {
            out + rtf_from(s, next, st2)
        } else {
            out
        }
    } else {
        Seq::empty()
    }
}

/// The readable text of the RTF document `s`.
pub open spec fn rtf_text(s: Seq<char>) -> Seq<char> {
    rtf_from(s, 0, RtfState { depth: 0, skip: None })
}

} // verus!

verus! {

fn is_alpha_exec(c: char) -> (r: bool)
    ensures
        r == is_alpha(c),
{
    ('a' <= c && c <= 'z') || ('A' <= c && c <= 'Z')
}

fn is_num_exec(c: char) -> (r: bool)
    ensures
        r == is_num(c),
{
    '0' <= c && c <= '9'
}

/// Very basic RTF stripping: removes control words and braces to extract
/// readable text.
pub fn strip_rtf(input: &str) -> (r: String)
    ensures
        r@ == rtf_text(input@),
{
    let v = chars_of(input);
    let n = v.len();
    let ghost s = v@;
    let mut out: Vec<char> = Vec::new();
    let mut i: usize = 0;
    let mut depth: i128 = 0;
    let mut skip: Option<i128> = None;
    while i < n
        invariant
            n == v@.len(),
            s == v@,
            i <= n,
            -(i as int) <= depth <= i,
            skip matches Some(sd) ==> -(i as int) <= sd <= i,
            out@ + rtf_from(s, i as int, RtfState { depth: depth as int, skip: match skip { Some(sd) => Some(sd as int), None => None } })
                == rtf_text(s),
        decreases n - i,
    {
        let ghost st = RtfState { depth: depth as int, skip: match skip { Some(sd) => Some(sd as int), None => None } };
        proof {
            lemma_step_advances(s, i as int, st);
        }
        let ghost step = rtf_step(s, i as int, st);
        let ghost old_out = out@;
        let ghost old_i = i as int;
        let ch = v[i];
        if ch == '{' {
            depth = depth + 1;
            if n - i > 2 && v[i + 1] == '\\' && v[i + 2] == '*' && skip.is_none() {
                skip = Some(depth);
            }
            i = i + 1;
        } else if ch == '}' {
            match skip {
                Some(sd) => {
                    if depth == sd {
                        skip = None;
                    }
                },
                None => {},
            }
            depth = depth - 1;
            i = i + 1;
        } else if ch == '\\' && skip.is_none() {
            if i + 1 >= n {
                i = i + 1;
            } else if v[i + 1] == '\'' {
                i = if n - i >= 4 { i + 4 } else { n };
            } else if is_alpha_exec(v[i + 1]) {
                let mut j: usize = i + 1;
                while j < n && is_alpha_exec(v[j])
                    invariant
                        i + 1 <= j <= n,
                        n == v@.len(),
                        scan_alpha(s, j as int) == scan_alpha(s, i + 1),
                        s == v@,
                    decreases n - j,
                {
                    j = j + 1;
                }
                let w_end = j;
                while j < n && (is_num_exec(v[j]) || v[j] == '-')
                    invariant
                        w_end <= j <= n,
                        n == v@.len(),
                        scan_param(s, j as int) == scan_param(s, w_end as int),
                        s == v@,
                    decreases n - j,
                {
                    j = j + 1;
                }
                if j < n && v[j] == ' ' {
                    j = j + 1;
                }
                let len = w_end - (i + 1);
                let a = i + 1;
                let is_par = len == 3 && v[a] == 'p' && v[a + 1] == 'a' && v[a + 2] == 'r';
                let is_line = len == 4 && v[a] == 'l' && v[a + 1] == 'i' && v[a + 2] == 'n' && v[a + 3] == 'e';
                let is_tab = len == 3 && v[a] == 't' && v[a + 1] == 'a' && v[a + 2] == 'b';
                proof {
                    let word = s.subrange(a as int, w_end as int);
                    assert(is_par <==> word =~= seq!['p', 'a', 'r']) by {
                        if word =~= seq!['p', 'a', 'r'] {
                            assert(word[0] == 'p' && word[1] == 'a' && word[2] == 'r');
                        }
                    }
                    assert(is_tab <==> word =~= seq!['t', 'a', 'b']) by {
                        if word =~= seq!['t', 'a', 'b'] {
                            assert(word[0] == 't' && word[1] == 'a' && word[2] == 'b');
                        }
                    }
                    assert(is_line <==> word =~= seq!['l', 'i', 'n', 'e']) by {
                        if word =~= seq!['l', 'i', 'n', 'e'] {
                            assert(word[0] == 'l' && word[1] == 'i' && word[2] == 'n' && word[3] == 'e');
                        }
                    }
                }
                if is_par || is_line {
                    out.push('\n');
                } else if is_tab {
                    out.push('\t');
                }
                i = j;
            } else {
                let nc = v[i + 1];
                if nc == '\\' || nc == '{' || nc == '}' {
                    out.push(nc);
                }
                i = i + 2;
            }
        } else if skip.is_some() {
            i = i + 1;
        } else if ch == '\r' || ch == '\n' {
            i = i + 1;
        } else {
            out.push(ch);
            i = i + 1;
        }
        proof {
            let st2 = RtfState { depth: depth as int, skip: match skip { Some(sd) => Some(sd as int), None => None } };
            assert(step.0 == i as int);
            assert(step.1 == st2);
            assert(out@ == old_out + step.2);
            assert(rtf_from(s, old_i, st) == step.2 + rtf_from(s, i as int, st2));
        }
    }
    assert(rtf_from(s, n as int, RtfState { depth: depth as int, skip: match skip { Some(sd) => Some(sd as int), None => None } }) == Seq::<char>::empty());
    string_of(&out)
}

} // verus!

verus! {

/// Text with no braces, backslashes or line breaks carries no RTF markup.
pub open spec fn is_plain(s: Seq<char>) -> bool {
    forall|i: int| 0 <= i < s.len() ==> {
        let c = #[trigger] s[i];
        c != '{' && c != '}' && c != '\\' && c != '\r' && c != '\n'
    }
}

proof fn lemma_plain_from(s: Seq<char>, i: int, st: RtfState)
    requires
        is_plain(s),
        0 <= i <= s.len(),
        st.skip is None,
    ensures
        rtf_from(s, i, st) == s.subrange(i, s.len() as int),
    decreases s.len() - i,
{
    if i < s.len() {
        let c = s[i];
        assert(c != '{' && c != '}' && c != '\\' && c != '\r' && c != '\n');
        lemma_plain_from(s, i + 1, st);
        assert(s.subrange(i, s.len() as int) == seq![c] + s.subrange(i + 1, s.len() as int));
    }
}

/// Law: text without markup comes out of the stripper unchanged.
pub proof fn law_rtf_plain_text_unchanged(s: Seq<char>)
    requires
        is_plain(s),
    ensures
        rtf_text(s) == s,
{
    lemma_plain_from(s, 0, RtfState { depth: 0, skip: None });
    assert(s.subrange(0, s.len() as int) == s);
}

proof fn lemma_from_len(s: Seq<char>, i: int, st: RtfState)
    requires
        0 <= i <= s.len(),
    ensures
        rtf_from(s, i, st).len() <= s.len() - i,
    decreases s.len() - i,
{
    if i < s.len() {
        lemma_step_advances(s, i, st);
        let (next, st2, out) = rtf_step(s, i, st);
        lemma_from_len(s, next, st2);
    }
}

/// Law: stripping never makes the text longer.
pub proof fn law_rtf_never_longer(s: Seq<char>)
    ensures
        rtf_text(s).len() <= s.len(),
{
    lemma_from_len(s, 0, RtfState { depth: 0, skip: None });
}

} // verus!

verus! {

/// A control word: a non-empty run of ASCII letters.
pub open spec fn is_word(w: Seq<char>) -> bool {
    w.len() > 0 && forall|j: int| 0 <= j < w.len() ==> is_alpha(#[trigger] w[j])
}

/// A control word that writes nothing: any but `par`, `line` and `tab`.
pub open spec fn is_silent_word(w: Seq<char>) -> bool {
    is_word(w) && w != seq!['p', 'a', 'r'] && w != seq!['l', 'i', 'n', 'e'] && w != seq!['t', 'a', 'b']
}

proof fn lemma_scan_alpha_run(s: Seq<char>, j: int, n: int)
    requires
        0 <= j,
        0 <= n,
        j + n < s.len(),
        forall|k: int| j <= k < j + n ==> is_alpha(#[trigger] s[k]),
        !is_alpha(s[j + n]),
    ensures
        scan_alpha(s, j) == j + n,
    decreases n,
{
    if n > 0 {
        lemma_scan_alpha_run(s, j + 1, n - 1);
    }
}

proof fn lemma_plain_run(s: Seq<char>, i: int, j: int, st: RtfState)
    requires
        0 <= i <= j <= s.len(),
        forall|k: int| i <= k < j ==> {
            let c = #[trigger] s[k];
            c != '{' && c != '}' && c != '\\' && c != '\r' && c != '\n'
        },
        st.skip is None,
    ensures
        rtf_from(s, i, st) == s.subrange(i, j) + rtf_from(s, j, st),
    decreases j - i,
{
    if i < j {
        let c = s[i];
        assert(c != '{' && c != '}' && c != '\\' && c != '\r' && c != '\n');
        lemma_plain_run(s, i + 1, j, st);
        assert(s.subrange(i, j) =~= seq![c] + s.subrange(i + 1, j));
    } else {
        assert(s.subrange(i, j) =~= Seq::<char>::empty());
    }
}

proof fn lemma_scan_param_run(s: Seq<char>, j: int, m: int)
    requires
        0 <= j,
        0 <= m,
        j + m < s.len(),
        forall|k: int| j <= k < j + m ==> is_num(#[trigger] s[k]),
        s[j + m] == ' ',
    ensures
        scan_param(s, j) == j + m,
    decreases m,
{
    if m > 0 {
        lemma_scan_param_run(s, j + 1, m - 1);
    }
}

/// The control word `w` at index `i + 1` of `s`, after a backslash at `i`,
/// with `m` digits of parameter and then a space, is consumed with the space
/// and writes nothing.
proof fn lemma_silent_word_step(s: Seq<char>, i: int, w: Seq<char>, m: int, st: RtfState)
    requires
        is_silent_word(w),
        0 <= i,
        0 <= m,
        i + 2 + w.len() + m <= s.len(),
        s[i] == '\\',
        s.subrange(i + 1, i + 1 + w.len()) == w,
        forall|k: int| i + 1 + w.len() <= k < i + 1 + w.len() + m ==> is_num(#[trigger] s[k]),
        s[i + 1 + w.len() + m] == ' ',
        st.skip is None,
    ensures
        rtf_from(s, i, st) == rtf_from(s, i + 2 + w.len() + m, st),
{
    let n = w.len() as int;
    assert forall|k: int| i + 1 <= k < i + 1 + n implies is_alpha(#[trigger] s[k]) by {
        assert(s[k] == s.subrange(i + 1, i + 1 + n)[k - i - 1]);
        assert(is_alpha(w[k - i - 1]));
    }
    if m > 0 {
        assert(is_num(s[i + 1 + n]));
    }
    lemma_scan_alpha_run(s, i + 1, n);
    lemma_scan_param_run(s, i + 1 + n, m);
    assert(s[i + 1] == w[0]);
    assert(is_alpha(w[0]));
    let step = rtf_step(s, i, st);
    assert(s.subrange(i + 1, scan_alpha(s, i + 1)) == w);
    assert(step.2 == Seq::<char>::empty());
    assert(step.0 == i + 2 + n + m);
    assert(step.1 == st);
    assert(Seq::<char>::empty() + rtf_from(s, i + 2 + n + m, st) == rtf_from(s, i + 2 + n + m, st));
}

/// The document `{\rtf1 {\` + `w` + ` ` + `x` + `}}`.
pub open spec fn group_doc(w: Seq<char>, x: Seq<char>) -> Seq<char> {
    seq!['{', '\\', 'r', 't', 'f', '1', ' ', '{', '\\'] + w + seq![' '] + x + seq!['}', '}']
}

/// Law: only `{\*` destinations are dropped. The text of an ordinary group
/// such as `{\b ...}` or `{\i ...}` comes out unchanged: for every control
/// word `w` that writes nothing and every text `x` without markup, the
/// document `{\rtf1 {\w x}}` reads as `x`.
#[verifier::rlimit(60)]
pub proof fn law_rtf_group_text_is_kept(w: Seq<char>, x: Seq<char>)
    requires
        is_silent_word(w),
        is_plain(x),
    ensures
        rtf_text(group_doc(w, x)) == x,
{
    let s = group_doc(w, x);
    let lw = w.len() as int;
    let lx = x.len() as int;
    let n = s.len() as int;
    assert(n == 12 + lw + lx);
    let st0 = RtfState { depth: 0, skip: None };
    let st1 = RtfState { depth: 1, skip: None };
    let st2 = RtfState { depth: 2, skip: None };
    assert(s[0] == '{' && s[1] == '\\' && s[2] == 'r' && s[3] == 't' && s[4] == 'f' && s[5] == '1' && s[6] == ' ');
    assert(s[7] == '{' && s[8] == '\\');
    assert(s[9] == w[0]);
    assert(is_alpha(w[0]));
    assert(s[9 + lw] == ' ');
    assert(s[10 + lw + lx] == '}' && s[11 + lw + lx] == '}');
    // `{` at 0
    assert(rtf_step(s, 0, st0) == (1int, st1, Seq::<char>::empty()));
    assert(rtf_from(s, 0, st0) == rtf_from(s, 1, st1));
    // `\rtf1 ` at 1
    let rtf = seq!['r', 't', 'f'];
    assert(s.subrange(2, 5) =~= rtf);
    assert(is_num(s[5]));
    lemma_silent_word_step(s, 1, rtf, 1, st1);
    // `{` at 7
    assert(rtf_step(s, 7, st1) == (8int, st2, Seq::<char>::empty()));
    assert(rtf_from(s, 7, st1) == rtf_from(s, 8, st2));
    // `\w ` at 8
    assert(s.subrange(9, 9 + lw) =~= w);
    lemma_silent_word_step(s, 8, w, 0, st2);
    // `x`
    assert forall|k: int| 10 + lw <= k < 10 + lw + lx implies {
        let c = #[trigger] s[k];
        c != '{' && c != '}' && c != '\\' && c != '\r' && c != '\n'
    } by {
        assert(s[k] == x[k - 10 - lw]);
    }
    lemma_plain_run(s, 10 + lw, 10 + lw + lx, st2);
    assert(s.subrange(10 + lw, 10 + lw + lx) =~= x);
    // `}}`
    let st3 = RtfState { depth: 1, skip: None };
    let st4 = RtfState { depth: 0, skip: None };
    assert(rtf_step(s, 10 + lw + lx, st2) == (11 + lw + lx, st3, Seq::<char>::empty()));
    assert(rtf_step(s, 11 + lw + lx, st3) == (12 + lw + lx, st4, Seq::<char>::empty()));
    assert(rtf_from(s, 12 + lw + lx, st4) == Seq::<char>::empty());
    assert(rtf_from(s, 11 + lw + lx, st3) == Seq::<char>::empty());
    assert(rtf_from(s, 10 + lw + lx, st2) == Seq::<char>::empty());
    assert(x + Seq::<char>::empty() == x);
}

} // verus!

verus! {

proof fn lemma_skipped_run(s: Seq<char>, i: int, j: int, st: RtfState)
    requires
        0 <= i <= j <= s.len(),
        forall|k: int| i <= k < j ==> #[trigger] s[k] != '{' && s[k] != '}',
        st.skip is Some,
    ensures
        rtf_from(s, i, st) == rtf_from(s, j, st),
    decreases j - i,
{
    if i < j {
        assert(s[i] != '{' && s[i] != '}');
        assert(rtf_step(s, i, st) == (i + 1, st, Seq::<char>::empty()));
        lemma_skipped_run(s, i + 1, j, st);
        assert(Seq::<char>::empty() + rtf_from(s, i + 1, st) == rtf_from(s, i + 1, st));
    }
}

/// The document `{\rtf1 {\*\` + `w` + ` ` + `x` + `}` + `y` + `}`.
pub open spec fn destination_doc(w: Seq<char>, x: Seq<char>, y: Seq<char>) -> Seq<char> {
    seq!['{', '\\', 'r', 't', 'f', '1', ' ', '{', '\\', '*', '\\'] + w + seq![' '] + x + seq!['}'] + y + seq!['}']
}

/// Law: a `{\*` destination is dropped whole, and the text after it is
/// kept: the document `{\rtf1 {\*\w x}y}` reads as `y`.
#[verifier::rlimit(60)]
pub proof fn law_rtf_destination_is_dropped(w: Seq<char>, x: Seq<char>, y: Seq<char>)
    requires
        is_word(w),
        is_plain(x),
        is_plain(y),
    ensures
        rtf_text(destination_doc(w, x, y)) == y,
{
    let s = destination_doc(w, x, y);
    let lw = w.len() as int;
    let lx = x.len() as int;
    let ly = y.len() as int;
    let e = 12 + lw + lx;
    assert(s.len() == e + 2 + ly);
    let st0 = RtfState { depth: 0, skip: None };
    let st1 = RtfState { depth: 1, skip: None };
    let sk = RtfState { depth: 2, skip: Some(2) };
    assert(s[0] == '{' && s[1] == '\\' && s[2] == 'r' && s[3] == 't' && s[4] == 'f' && s[5] == '1' && s[6] == ' ');
    assert(s[7] == '{' && s[8] == '\\' && s[9] == '*' && s[10] == '\\');
    assert(s[e] == '}' && s[e + 1 + ly] == '}');
    assert(rtf_step(s, 0, st0) == (1int, st1, Seq::<char>::empty()));
    assert(rtf_from(s, 0, st0) == rtf_from(s, 1, st1));
    let rtf = seq!['r', 't', 'f'];
    assert(s.subrange(2, 5) =~= rtf);
    assert(is_num(s[5]));
    lemma_silent_word_step(s, 1, rtf, 1, st1);
    assert(rtf_step(s, 7, st1) == (8int, sk, Seq::<char>::empty()));
    assert(rtf_from(s, 7, st1) == rtf_from(s, 8, sk));
    assert forall|k: int| 8 <= k < e implies #[trigger] s[k] != '{' && s[k] != '}' by {
        if 11 <= k < 11 + lw {
            assert(s[k] == w[k - 11]);
            assert(is_alpha(w[k - 11]));
        } else if 12 + lw <= k {
            assert(s[k] == x[k - 12 - lw]);
        }
    }
    lemma_skipped_run(s, 8, e, sk);
    assert(rtf_step(s, e, sk) == (e + 1, st1, Seq::<char>::empty()));
    assert(rtf_from(s, e, sk) == rtf_from(s, e + 1, st1));
    assert forall|k: int| e + 1 <= k < e + 1 + ly implies {
        let c = #[trigger] s[k];
        c != '{' && c != '}' && c != '\\' && c != '\r' && c != '\n'
    } by {
        assert(s[k] == y[k - e - 1]);
    }
    lemma_plain_run(s, e + 1, e + 1 + ly, st1);
    assert(s.subrange(e + 1, e + 1 + ly) =~= y);
    assert(rtf_step(s, e + 1 + ly, st1) == (e + 2 + ly, st0, Seq::<char>::empty()));
    assert(rtf_from(s, e + 2 + ly, st0) == Seq::<char>::empty());
    assert(rtf_from(s, e + 1 + ly, st1) == Seq::<char>::empty());
    assert(y + Seq::<char>::empty() == y);
}

} // verus!
