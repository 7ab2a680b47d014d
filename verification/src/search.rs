//! Parsing of the `s<delim>pattern<delim>replacement<delim>flags` search
//! specification.
//!
//! The character after the leading `s` is taken as the delimiter; it must
//! occur exactly three times in the whole string, splitting it into four
//! segments. Segments one to three become the pattern, the replacement and
//! the flags. A delimiter character inside the pattern or replacement text
//! is indistinguishable from a separator: there is no escaping, and such a
//! string simply splits differently.
use vstd::prelude::*;
use vstd::string::StrSliceExecFns;
use vstd::string::StringExecFns;

verus! {

/// Why a search specification string was rejected.
#[derive(Debug, PartialEq, Eq, Structural)]
pub enum SpecParseError {
    /// The string does not begin with the literal character `s`.
    MissingLeadingS,
    /// The string is shorter than the six characters of the smallest valid
    /// specification.
    TooShort,
    /// The assumed delimiter (the character after the leading `s`) does not
    /// occur exactly three times; `count` is the number of occurrences found.
    DelimiterCount { delimiter: char, count: usize },
}

/// How many times `c` occurs in `s`.
pub open spec fn count_occ(s: Seq<char>, c: char) -> nat
    decreases s.len(),
{
    if s.len() == 0 {
        0
    } else {
        count_occ(s.drop_last(), c) + if s.last() == c {
            1nat
        } else {
            0nat
        }
    }
}

/// A valid specification string: starts with `s`, is at least six
/// characters long, and contains the character after the `s` exactly
/// three times.
pub open spec fn spec_wf(s: Seq<char>) -> bool {
    s.len() >= 6 && s[0] == 's' && count_occ(s, s[1]) == 3
}

/// `seg` contains no occurrence of the delimiter `d`.
pub open spec fn seg_free(seg: Seq<char>, d: char) -> bool {
    forall|k: int| 0 <= k < seg.len() ==> seg[k] != d
}

/// `s` splits by the delimiter `d` into exactly the four segments
/// `s0`, `s1`, `s2`, `s3`: joining them back with `d` reproduces `s`,
/// and no segment contains `d`. For a given `d` the four segments are
/// uniquely determined by these two conditions.
pub open spec fn is_split4(
    s: Seq<char>,
    d: char,
    s0: Seq<char>,
    s1: Seq<char>,
    s2: Seq<char>,
    s3: Seq<char>,
) -> bool {
    &&& s == s0 + seq![d] + s1 + seq![d] + s2 + seq![d] + s3
    &&& seg_free(s0, d)
    &&& seg_free(s1, d)
    &&& seg_free(s2, d)
    &&& seg_free(s3, d)
}

/// The segment before the first delimiter of a well-formed specification:
/// empty when the delimiter is `s` itself, otherwise the single leading
/// character.
pub open spec fn head_seg(s: Seq<char>, d: char) -> Seq<char> {
    if s.len() >= 1 && s[0] == d {
        Seq::<char>::empty()
    } else if s.len() >= 1 {
        seq![s[0]]
    } else {
        Seq::<char>::empty()
    }
}

/// A parsed search specification. `string` keeps the raw text it was parsed
/// from; `delimiter` is the character that separated its segments.
#[derive(Debug)]
pub struct VimSearch {
    pub search_pattern: String,
    pub replacement: String,
    pub flags: String,
    pub delimiter: char,
    pub string: String,
}

impl VimSearch {
    /// The parsed fields are exactly the four-way split of the raw string
    /// by its delimiter: rejoining them reproduces the raw string.
    pub open spec fn wf(&self) -> bool {
        &&& spec_wf(self.string@)
        &&& self.delimiter == self.string@[1]
        &&& is_split4(
            self.string@,
            self.delimiter,
            head_seg(self.string@, self.delimiter),
            self.search_pattern@,
            self.replacement@,
            self.flags@,
        )
    }

    /// Parses a search specification string.
    ///
    /// Succeeds exactly on well-formed strings and then returns the four-way
    /// split by the delimiter; each rejection names the first constraint the
    /// string failed, in the order: leading `s`, length, delimiter count.
    pub fn new(search: String) -> (r: Result<VimSearch, SpecParseError>)
        ensures
            r is Ok <==> spec_wf(search@),
            r matches Ok(v) ==> {
                &&& v.string@ == search@
                &&& v.wf()
            },
            !(search@.len() >= 1 && search@[0] == 's') ==> r == Err::<VimSearch, SpecParseError>(
                SpecParseError::MissingLeadingS,
            ),
            (search@.len() >= 1 && search@[0] == 's' && search@.len() < 6) ==> r == Err::<
                VimSearch,
                SpecParseError,
            >(SpecParseError::TooShort),
            (search@.len() >= 6 && search@[0] == 's' && count_occ(search@, search@[1]) != 3) ==> (
            r matches Err(SpecParseError::DelimiterCount { delimiter: ed, count: ec }) && ed
                == search@[1] && ec == count_occ(search@, search@[1])),
    {
        let delimiter = match Self::get_delimeter(search.as_str()) {
            Ok(value) => value,
            Err(e) => {
                return Err(e);
            },
        };
        let len = search.as_str().unicode_len();
        let (p1, p2, p3) = find_three_occurrences(search.as_str(), delimiter);
        let pattern_part = search.as_str().substring_char(p1 + 1, p2);
        let replacement_part = search.as_str().substring_char(p2 + 1, p3);
        let flags_part = search.as_str().substring_char(p3 + 1, len);
        let result = VimSearch {
            search_pattern: String::from_str(pattern_part),
            replacement: String::from_str(replacement_part),
            flags: String::from_str(flags_part),
            delimiter,
            string: search,
        };
        proof {
            let s = result.string@;
            let d = result.delimiter;
            assert(s[1] == d);
            if s[0] == d {
                if p1 > 0 {
                    assert(s.subrange(0, p1 as int)[0] == s[0]);
                    assert(false);
                }
            } else {
                assert(s[p1 as int] == d);
                if p1 > 1 {
                    assert(s.subrange(0, p1 as int)[1] == s[1]);
                    assert(false);
                }
                assert(p1 == 1);
            }
            assert(head_seg(s, d) =~= s.subrange(0, p1 as int));
            assert(s =~= s.subrange(0, p1 as int) + seq![d] + s.subrange(
                p1 + 1,
                p2 as int,
            ) + seq![d] + s.subrange(p2 + 1, p3 as int) + seq![d] + s.subrange(
                p3 + 1,
                s.len() as int,
            ));
        }
        Ok(result)
    }

    /// Validates a specification string and returns its delimiter, the
    /// character following the leading `s`.
    ///
    /// Succeeds exactly on well-formed strings; each rejection names the
    /// first constraint the string failed, in the order: leading `s`,
    /// length, delimiter count.
    pub fn get_delimeter(search_string: &str) -> (r: Result<char, SpecParseError>)
        ensures
            r is Ok <==> spec_wf(search_string@),
            r matches Ok(d) ==> d == search_string@[1],
            !(search_string@.len() >= 1 && search_string@[0] == 's') ==> r == Err::<
                char,
                SpecParseError,
            >(SpecParseError::MissingLeadingS),
            (search_string@.len() >= 1 && search_string@[0] == 's' && search_string@.len() < 6)
                ==> r == Err::<char, SpecParseError>(SpecParseError::TooShort),
            (search_string@.len() >= 6 && search_string@[0] == 's' && count_occ(
                search_string@,
                search_string@[1],
            ) != 3) ==> (r matches Err(SpecParseError::DelimiterCount { delimiter: ed, count: ec })
                && ed == search_string@[1] && ec == count_occ(search_string@, search_string@[1])),
    {
        let len = search_string.unicode_len();
        if len == 0 {
            return Err(SpecParseError::MissingLeadingS);
        }
        if search_string.get_char(0) != 's' {
            return Err(SpecParseError::MissingLeadingS);
        }
        if len < 6 {
            return Err(SpecParseError::TooShort);
        }
        let assumed_delimiter = search_string.get_char(1);
        let delimeter_count = count_char(search_string, assumed_delimiter);
        if delimeter_count != 3 {
            return Err(
                SpecParseError::DelimiterCount {
                    delimiter: assumed_delimiter,
                    count: delimeter_count,
                },
            );
        }
        Ok(assumed_delimiter)
    }
}

/// A count over a prefix never exceeds the count over the whole sequence.
proof fn lemma_count_occ_prefix_le(s: Seq<char>, c: char, i: int)
    requires
        0 <= i <= s.len(),
    ensures
        count_occ(s.subrange(0, i), c) <= count_occ(s, c),
    decreases s.len() - i,
{
    if i == s.len() {
        assert(s.subrange(0, i) =~= s);
    } else {
        assert(s.subrange(0, i + 1).drop_last() =~= s.subrange(0, i));
        lemma_count_occ_prefix_le(s, c, i + 1);
    }
}

/// Counts how many times `c` occurs in `s`.
fn count_char(s: &str, c: char) -> (n: usize)
    ensures
        n == count_occ(s@, c),
{
    let len = s.unicode_len();
    let mut n: usize = 0;
    let mut i: usize = 0;
    while i < len
        invariant
            i <= len,
            len == s@.len(),
            n == count_occ(s@.subrange(0, i as int), c),
            n <= i,
        decreases len - i,
    {
        proof {
            assert(s@.subrange(0, i + 1).drop_last() =~= s@.subrange(0, i as int));
            assert(s@.subrange(0, i + 1).last() == s@[i as int]);
        }
        if s.get_char(i) == c {
            n = n + 1;
        }
        i = i + 1;
    }
    proof {
        assert(s@.subrange(0, len as int) =~= s@);
    }
    n
}

/// Finds the three positions at which `d` occurs in `s`, in order; between
/// and around them `s` is free of `d`.
fn find_three_occurrences(s: &str, d: char) -> (r: (usize, usize, usize))
    requires
        count_occ(s@, d) == 3,
    ensures
        ({
            let (p1, p2, p3) = r;
            &&& p1 < p2 < p3 < s@.len()
            &&& s@[p1 as int] == d && s@[p2 as int] == d && s@[p3 as int] == d
            &&& seg_free(s@.subrange(0, p1 as int), d)
            &&& seg_free(s@.subrange(p1 + 1, p2 as int), d)
            &&& seg_free(s@.subrange(p2 + 1, p3 as int), d)
            &&& seg_free(s@.subrange(p3 + 1, s@.len() as int), d)
        }),
{
    let len = s.unicode_len();
    let mut p1: usize = 0;
    let mut p2: usize = 0;
    let mut p3: usize = 0;
    let mut found: usize = 0;
    let mut i: usize = 0;
    while i < len
        invariant
            i <= len,
            len == s@.len(),
            count_occ(s@, d) == 3,
            found == count_occ(s@.subrange(0, i as int), d),
            found >= 1 ==> p1 < i && s@[p1 as int] == d && (forall|k: int|
                0 <= k < p1 ==> s@[k] != d),
            found >= 2 ==> p1 < p2 < i && s@[p2 as int] == d && (forall|k: int|
                p1 < k < p2 ==> s@[k] != d),
            found >= 3 ==> p2 < p3 < i && s@[p3 as int] == d && (forall|k: int|
                p2 < k < p3 ==> s@[k] != d),
            found == 0 ==> forall|k: int| 0 <= k < i ==> s@[k] != d,
            found == 1 ==> forall|k: int| p1 < k < i ==> s@[k] != d,
            found == 2 ==> forall|k: int| p2 < k < i ==> s@[k] != d,
            found == 3 ==> forall|k: int| p3 < k < i ==> s@[k] != d,
        decreases len - i,
    {
        proof {
            assert(s@.subrange(0, i + 1).drop_last() =~= s@.subrange(0, i as int));
            assert(s@.subrange(0, i + 1).last() == s@[i as int]);
            lemma_count_occ_prefix_le(s@, d, i + 1);
        }
        if s.get_char(i) == d {
            if found == 0 {
                p1 = i;
            } else if found == 1 {
                p2 = i;
            } else {
                p3 = i;
            }
            found = found + 1;
        }
        i = i + 1;
    }
    proof {
        assert(s@.subrange(0, len as int) =~= s@);
    }
    (p1, p2, p3)
}

} // verus!
