//! Whitespace trimming of lines.
//!
//! Every line handed to the rewriter is first stripped of leading and
//! trailing whitespace; the trimmed form is what matching and replacement
//! operate on and what ends up in the rewritten file.
use vstd::prelude::*;
use vstd::string::StrSliceExecFns;
use vstd::string::StringExecFns;

verus! {

/// What `char::is_whitespace` returns for `c`: whether `c` has the Unicode
/// `White_Space` property. The full character table is left unstated; the
/// result depends on the character alone.
pub uninterp spec fn is_whitespace_char(c: char) -> bool;

/// Relies on `char::is_whitespace`: returns whether `c` has the Unicode
/// `White_Space` property, a function of the character alone.
pub assume_specification[ char::is_whitespace ](c: char) -> (r: bool)
    ensures
        r == is_whitespace_char(c),
;

/// `s` with its leading whitespace characters removed.
pub open spec fn trim_front_spec(s: Seq<char>) -> Seq<char>
    decreases s.len(),
{
    if s.len() == 0 {
        s
    } else if is_whitespace_char(s[0]) {
        trim_front_spec(s.subrange(1, s.len() as int))
    } else {
        s
    }
}

/// `s` with its trailing whitespace characters removed.
pub open spec fn trim_back_spec(s: Seq<char>) -> Seq<char>
    decreases s.len(),
{
    if s.len() == 0 {
        s
    } else if is_whitespace_char(s[s.len() - 1]) {
        trim_back_spec(s.subrange(0, s.len() - 1))
    } else {
        s
    }
}

/// `s` with both leading and trailing whitespace removed: what `trim_line`
/// returns and what the rewriter sees of every input line.
pub open spec fn trim_spec(s: Seq<char>) -> Seq<char> {
    trim_back_spec(trim_front_spec(s))
}

/// Dropping leading whitespace is the same as cutting the sequence at the
/// first non-whitespace character.
proof fn lemma_trim_front_at(s: Seq<char>, a: int)
    requires
        0 <= a <= s.len(),
        forall|k: int| 0 <= k < a ==> is_whitespace_char(s[k]),
        a < s.len() ==> !is_whitespace_char(s[a]),
    ensures
        trim_front_spec(s) == s.subrange(a, s.len() as int),
    decreases a,
{
    if a == 0 {
        assert(s.subrange(0, s.len() as int) =~= s);
    } else {
        let t = s.subrange(1, s.len() as int);
        assert(is_whitespace_char(s[0]));
        assert(forall|k: int| 0 <= k < a - 1 ==> is_whitespace_char(t[k]));
        lemma_trim_front_at(t, a - 1);
        assert(t.subrange(a - 1, t.len() as int) =~= s.subrange(a, s.len() as int));
    }
}

/// Dropping trailing whitespace is the same as cutting the sequence after
/// the last non-whitespace character.
proof fn lemma_trim_back_at(s: Seq<char>, b: int)
    requires
        0 <= b <= s.len(),
        forall|k: int| b <= k < s.len() ==> is_whitespace_char(s[k]),
        b > 0 ==> !is_whitespace_char(s[b - 1]),
    ensures
        trim_back_spec(s) == s.subrange(0, b),
    decreases s.len() - b,
{
    if b == s.len() {
        if s.len() == 0 {
            assert(s.subrange(0, 0) =~= s);
        } else if b > 0 {
            assert(s.subrange(0, s.len() as int) =~= s);
        }
    } else {
        let t = s.subrange(0, s.len() - 1);
        assert(is_whitespace_char(s[s.len() - 1]));
        assert(forall|k: int| b <= k < t.len() ==> is_whitespace_char(t[k]));
        lemma_trim_back_at(t, b);
        assert(t.subrange(0, b) =~= s.subrange(0, b));
    }
}

/// Returns `s` with leading and trailing whitespace removed, the form in
/// which every input line is matched, rewritten and staged.
pub fn trim_line(s: &str) -> (r: String)
    ensures
        r@ == trim_spec(s@),
{
    let len = s.unicode_len();
    let mut start: usize = 0;
    loop
        invariant
            start <= len,
            len == s@.len(),
            forall|k: int| 0 <= k < start ==> is_whitespace_char(s@[k]),
        ensures
            start <= len,
            forall|k: int| 0 <= k < start ==> is_whitespace_char(s@[k]),
            start < len ==> !is_whitespace_char(s@[start as int]),
        decreases len - start,
    {
        if start >= len {
            break;
        }
        if s.get_char(start).is_whitespace() {
            start = start + 1;
        } else {
            break;
        }
    }
    let mut end: usize = len;
    loop
        invariant
            start <= end <= len,
            len == s@.len(),
            start < len ==> !is_whitespace_char(s@[start as int]),
            forall|k: int| end <= k < len ==> is_whitespace_char(s@[k]),
        ensures
            start <= end <= len,
            forall|k: int| end <= k < len ==> is_whitespace_char(s@[k]),
            end > start ==> !is_whitespace_char(s@[end - 1]),
        decreases end,
    {
        if end <= start {
            break;
        }
        if s.get_char(end - 1).is_whitespace() {
            end = end - 1;
        } else {
            break;
        }
    }
    let r = s.substring_char(start, end);
    proof {
        lemma_trim_front_at(s@, start as int);
        let front = s@.subrange(start as int, len as int);
        if start == end {
            lemma_trim_back_at(front, 0);
        } else {
            lemma_trim_back_at(front, end - start);
        }
        assert(front.subrange(0, end - start) =~= s@.subrange(start as int, end as int));
    }
    String::from_str(r)
}

/// After one pass, a trimmed sequence starts with a non-whitespace
/// character or is empty.
proof fn lemma_trim_front_clean(s: Seq<char>)
    ensures
        trim_front_spec(s).len() > 0 ==> !is_whitespace_char(trim_front_spec(s)[0]),
    decreases s.len(),
{
    if s.len() > 0 && is_whitespace_char(s[0]) {
        lemma_trim_front_clean(s.subrange(1, s.len() as int));
    }
}

/// Dropping trailing whitespace keeps a prefix of the sequence, and that
/// prefix ends in a non-whitespace character or is empty.
proof fn lemma_trim_back_clean(s: Seq<char>)
    ensures
        trim_back_spec(s).len() <= s.len(),
        trim_back_spec(s) == s.subrange(0, trim_back_spec(s).len() as int),
        trim_back_spec(s).len() > 0 ==> !is_whitespace_char(trim_back_spec(s)[trim_back_spec(s).len() - 1]),
    decreases s.len(),
{
    if s.len() == 0 {
        assert(s.subrange(0, 0) =~= s);
    } else if is_whitespace_char(s[s.len() - 1]) {
        let t = s.subrange(0, s.len() - 1);
        lemma_trim_back_clean(t);
        assert(t.subrange(0, trim_back_spec(t).len() as int)
            =~= s.subrange(0, trim_back_spec(t).len() as int));
    } else {
        assert(s.subrange(0, s.len() as int) =~= s);
    }
}

/// Trimming is idempotent: a line that has already been trimmed is left
/// unchanged by a second trim.
pub proof fn lemma_trim_idempotent(s: Seq<char>)
    ensures
        trim_spec(trim_spec(s)) == trim_spec(s),
{
    let f = trim_front_spec(s);
    let t = trim_back_spec(f);
    lemma_trim_front_clean(s);
    lemma_trim_back_clean(f);
    if t.len() > 0 {
        assert(t[0] == f.subrange(0, t.len() as int)[0]);
        assert(t[0] == f[0]);
        assert(!is_whitespace_char(t[0]));
        assert(trim_front_spec(t) == t);
        assert(trim_back_spec(t) == t);
    } else {
        assert(trim_front_spec(t) == t);
        assert(trim_back_spec(t) == t);
    }
}

} // verus!
