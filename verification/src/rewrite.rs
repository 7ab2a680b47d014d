//! The interactive rewrite engine.
//!
//! A line matches when it contains the search pattern as a literal
//! substring; the candidate replacement substitutes the first occurrence
//! only. The `Rewriter` state machine consumes one event at a time — a
//! line, an answer to a prompt, end of input, a read failure, the outcome
//! of the final commit — and says which action its driver must take next.
//! The driver performs the file and terminal I/O; every decision about
//! what is staged and when is taken here.
use crate::search::VimSearch;
use crate::text::lemma_trim_idempotent;
use crate::text::trim_line;
use crate::text::trim_spec;
use vstd::prelude::*;
use vstd::string::StrSliceExecFns;
use vstd::string::StringExecFns;

verus! {

/// `pat` occurs in `line` starting at index `i`.
pub open spec fn match_at(line: Seq<char>, pat: Seq<char>, i: int) -> bool {
    &&& 0 <= i
    &&& i + pat.len() <= line.len()
    &&& line.subrange(i, i + pat.len() as int) == pat
}

/// `line` contains `pat` as a literal substring.
pub open spec fn contains_pat(line: Seq<char>, pat: Seq<char>) -> bool {
    exists|i: int| match_at(line, pat, i)
}

/// `i` is the first index at which `pat` occurs in `line`.
pub open spec fn is_first_match(line: Seq<char>, pat: Seq<char>, i: int) -> bool {
    &&& match_at(line, pat, i)
    &&& forall|j: int| 0 <= j < i ==> !match_at(line, pat, j)
}

/// The first index at which `pat` occurs in `line`; meaningful only when
/// `contains_pat(line, pat)` holds.
pub open spec fn first_match(line: Seq<char>, pat: Seq<char>) -> int {
    choose|i: int| is_first_match(line, pat, i)
}

/// `line` with the first occurrence of `pat` replaced by `rep`; `line`
/// itself when `pat` does not occur.
pub open spec fn replace_first_spec(line: Seq<char>, pat: Seq<char>, rep: Seq<char>) -> Seq<char> {
    if contains_pat(line, pat) {
        let i = first_match(line, pat);
        line.subrange(0, i) + rep + line.subrange(i + pat.len() as int, line.len() as int)
    } else {
        line
    }
}

/// The line the rewriter stages for one input line: the candidate
/// replacement when the line matches and the decision was to accept,
/// the line itself otherwise.
pub open spec fn line_output_spec(
    pat: Seq<char>,
    rep: Seq<char>,
    line: Seq<char>,
    accept: bool,
) -> Seq<char> {
    if contains_pat(line, pat) && accept {
        replace_first_spec(line, pat, rep)
    } else {
        line
    }
}

/// At most one index is the first match.
proof fn lemma_first_match_unique(line: Seq<char>, pat: Seq<char>, i: int, j: int)
    requires
        is_first_match(line, pat, i),
        is_first_match(line, pat, j),
    ensures
        i == j,
{
}

/// Whether `pat` occurs in `line` starting exactly at index `i`.
fn matches_at(line: &str, pat: &str, i: usize) -> (r: bool)
    requires
        i + pat@.len() <= line@.len(),
    ensures
        r == match_at(line@, pat@, i as int),
{
    let llen = line.unicode_len();
    let plen = pat.unicode_len();
    let mut j: usize = 0;
    while j < plen
        invariant
            j <= plen,
            llen == line@.len(),
            plen == pat@.len(),
            i + plen <= llen,
            forall|k: int| 0 <= k < j ==> line@[i + k] == pat@[k],
        decreases plen - j,
    {
        if line.get_char(i + j) != pat.get_char(j) {
            proof {
                if match_at(line@, pat@, i as int) {
                    assert(line@.subrange(i as int, i + plen)[j as int] == pat@[j as int]);
                }
            }
            return false;
        }
        j = j + 1;
    }
    proof {
        assert(line@.subrange(i as int, i + plen) =~= pat@);
    }
    true
}

/// Returns the index of the first occurrence of `pat` in `line`, or `None`
/// when `line` does not contain `pat`.
pub fn find_first(line: &str, pat: &str) -> (r: Option<usize>)
    ensures
        r is Some <==> contains_pat(line@, pat@),
        r matches Some(i) ==> is_first_match(line@, pat@, i as int),
{
    let llen = line.unicode_len();
    let plen = pat.unicode_len();
    if plen > llen {
        return None;
    }
    if plen == 0 {
        proof {
            assert(line@.subrange(0, 0) =~= pat@);
            assert(match_at(line@, pat@, 0));
        }
        return Some(0);
    }
    let mut i: usize = 0;
    while i <= llen - plen
        invariant
            1 <= plen <= llen,
            llen == line@.len(),
            plen == pat@.len(),
            i <= llen - plen + 1,
            forall|k: int| 0 <= k < i ==> !match_at(line@, pat@, k),
        decreases llen - plen + 1 - i,
    {
        if matches_at(line, pat, i) {
            return Some(i);
        }
        i = i + 1;
    }
    proof {
        assert(forall|k: int| match_at(line@, pat@, k) ==> 0 <= k <= llen - plen);
    }
    None
}

/// Whether `line` contains the search pattern `pat` as a literal substring.
pub fn contains_pattern(line: &str, pat: &str) -> (r: bool)
    ensures
        r == contains_pat(line@, pat@),
{
    find_first(line, pat).is_some()
}

/// Returns `line` with the first occurrence of `pat` replaced by `rep`,
/// or a copy of `line` when `pat` does not occur in it.
pub fn replace_first(line: &str, pat: &str, rep: &str) -> (r: String)
    ensures
        r@ == replace_first_spec(line@, pat@, rep@),
{
    match find_first(line, pat) {
        Some(i) => {
            let llen = line.unicode_len();
            let plen = pat.unicode_len();
            let mut out = String::from_str(line.substring_char(0, i));
            out.append(rep);
            out.append(line.substring_char(i + plen, llen));
            proof {
                let w = first_match(line@, pat@);
                lemma_first_match_unique(line@, pat@, w, i as int);
            }
            out
        },
        None => String::from_str(line),
    }
}

/// The staged line for one input line under one decision: the candidate
/// replacement on an accepted match, the line itself otherwise.
pub fn output_line(pat: &str, rep: &str, line: &str, accept: bool) -> (r: String)
    ensures
        r@ == line_output_spec(pat@, rep@, line@, accept),
{
    if accept && contains_pattern(line, pat) {
        replace_first(line, pat, rep)
    } else {
        String::from_str(line)
    }
}

/// The answer given at a prompt: accept the candidate, keep the original
/// line, or neither — an invalid answer that forces a re-prompt.
#[derive(Debug, PartialEq, Eq, Structural)]
pub enum Decision {
    Accept,
    Reject,
    Invalid,
}

/// How an answer string is read: trimmed, then matched case-insensitively
/// against `y` and `n`; anything else is invalid.
pub open spec fn decision_spec(input: Seq<char>) -> Decision {
    let t = trim_spec(input);
    if t.len() == 1 && (t[0] == 'y' || t[0] == 'Y') {
        Decision::Accept
    } else if t.len() == 1 && (t[0] == 'n' || t[0] == 'N') {
        Decision::Reject
    } else {
        Decision::Invalid
    }
}

/// Parses one line of interactive input into a decision.
pub fn parse_decision(input: &str) -> (d: Decision)
    ensures
        d == decision_spec(input@),
{
    let t = trim_line(input);
    let tlen = t.as_str().unicode_len();
    if tlen == 1 {
        let c = t.as_str().get_char(0);
        if c == 'y' || c == 'Y' {
            Decision::Accept
        } else if c == 'n' || c == 'N' {
            Decision::Reject
        } else {
            Decision::Invalid
        }
    } else {
        Decision::Invalid
    }
}

/// Where one file's rewrite stands: scanning input lines, suspended on a
/// prompt for the line shown, flushing the finished staging buffer, or
/// finished — committed or aborted.
#[derive(Debug)]
pub enum RwState {
    Scanning,
    AwaitingDecision { line: String, candidate: String },
    Flushing,
    Committed,
    Aborted,
}

/// What the driver must do next: append `text` to the staging buffer and
/// flush it, show the candidate and ask for a decision, atomically persist
/// the staging buffer over the original file, or discard the staging
/// buffer and leave the original file untouched.
#[derive(Debug)]
pub enum RwAction {
    Stage { text: String },
    Prompt { candidate: String },
    Commit,
    Discard,
}

/// The per-file rewrite state machine. It holds the search pattern and
/// replacement, the current state, and — as ghost history — the sequence
/// of lines staged so far, in order.
pub struct Rewriter {
    pub pattern: String,
    pub replacement: String,
    pub state: RwState,
    pub staged: Ghost<Seq<Seq<char>>>,
}

impl Rewriter {
    /// While a prompt is pending, the line it is about matches the pattern
    /// and the candidate shown is that line with its first occurrence of
    /// the pattern replaced.
    pub open spec fn wf(&self) -> bool {
        self.state matches RwState::AwaitingDecision { line, candidate } ==> {
            &&& contains_pat(line@, self.pattern@)
            &&& candidate@ == replace_first_spec(line@, self.pattern@, self.replacement@)
        }
    }

    /// Starts a rewrite of one file under the given parsed search
    /// specification, with nothing staged yet.
    pub fn new(search: &VimSearch) -> (r: Rewriter)
        ensures
            r.pattern@ == search.search_pattern@,
            r.replacement@ == search.replacement@,
            r.state is Scanning,
            r.staged@ == Seq::<Seq<char>>::empty(),
            r.wf(),
    {
        Rewriter {
            pattern: search.search_pattern.clone(),
            replacement: search.replacement.clone(),
            state: RwState::Scanning,
            staged: Ghost(Seq::empty()),
        }
    }

    /// Consumes the next input line. A line without a match is staged
    /// unchanged at once and no prompt is issued; a line with a match
    /// suspends the machine on a prompt showing the candidate replacement,
    /// and stages nothing yet.
    pub fn on_line(&mut self, line: &str) -> (a: RwAction)
        requires
            old(self).state is Scanning,
            old(self).wf(),
        ensures
            final(self).pattern == old(self).pattern,
            final(self).replacement == old(self).replacement,
            final(self).wf(),
            !contains_pat(line@, old(self).pattern@) ==> {
                &&& a matches RwAction::Stage { text } && text@ == line@
                &&& final(self).state is Scanning
                &&& final(self).staged@ == old(self).staged@.push(line@)
            },
            contains_pat(line@, old(self).pattern@) ==> {
                &&& a matches RwAction::Prompt { candidate } && candidate@ == replace_first_spec(
                    line@,
                    old(self).pattern@,
                    old(self).replacement@,
                )
                &&& final(self).state matches RwState::AwaitingDecision {
                    line: pl,
                    candidate: pc,
                } && pl@ == line@ && pc@ == replace_first_spec(
                    line@,
                    old(self).pattern@,
                    old(self).replacement@,
                )
                &&& final(self).staged@ == old(self).staged@
            },
    {
        if contains_pattern(line, self.pattern.as_str()) {
            let candidate = replace_first(line, self.pattern.as_str(), self.replacement.as_str());
            let shown = candidate.clone();
            self.state = RwState::AwaitingDecision { line: String::from_str(line), candidate };
            RwAction::Prompt { candidate: shown }
        } else {
            self.staged = Ghost(self.staged@.push(line@));
            RwAction::Stage { text: String::from_str(line) }
        }
    }

    /// Consumes one line of interactive input while a prompt is pending.
    /// `y` stages the candidate, `n` stages the original line — both
    /// case-insensitively, after trimming — and anything else changes
    /// nothing and asks the driver to prompt again with the same candidate.
    pub fn on_answer(&mut self, input: &str) -> (a: RwAction)
        requires
            old(self).state is AwaitingDecision,
            old(self).wf(),
        ensures
            final(self).pattern == old(self).pattern,
            final(self).replacement == old(self).replacement,
            final(self).wf(),
            old(self).state matches RwState::AwaitingDecision { line: pl, candidate: pc } ==> {
                &&& decision_spec(input@) is Invalid ==> {
                    &&& a matches RwAction::Prompt { candidate } && candidate@ == pc@
                    &&& final(self).state == old(self).state
                    &&& final(self).staged@ == old(self).staged@
                }
                &&& decision_spec(input@) is Accept ==> {
                    &&& a matches RwAction::Stage { text } && text@ == pc@
                    &&& final(self).state is Scanning
                    &&& final(self).staged@ == old(self).staged@.push(pc@)
                }
                &&& decision_spec(input@) is Reject ==> {
                    &&& a matches RwAction::Stage { text } && text@ == pl@
                    &&& final(self).state is Scanning
                    &&& final(self).staged@ == old(self).staged@.push(pl@)
                }
            },
    {
        let (line, candidate) = match &self.state {
            RwState::AwaitingDecision { line, candidate } => (line.clone(), candidate.clone()),
            _ => {
                proof {
                    assert(false);
                }
                (String::new(), String::new())
            },
        };
        match parse_decision(input) {
            Decision::Invalid => RwAction::Prompt { candidate },
            Decision::Accept => {
                self.staged = Ghost(self.staged@.push(candidate@));
                self.state = RwState::Scanning;
                RwAction::Stage { text: candidate }
            },
            Decision::Reject => {
                self.staged = Ghost(self.staged@.push(line@));
                self.state = RwState::Scanning;
                RwAction::Stage { text: line }
            },
        }
    }

    /// Consumes the end of the input: the staging buffer is complete, and
    /// only now may it be persisted over the original file.
    pub fn on_eof(&mut self) -> (a: RwAction)
        requires
            old(self).state is Scanning,
            old(self).wf(),
        ensures
            final(self).pattern == old(self).pattern,
            final(self).replacement == old(self).replacement,
            final(self).wf(),
            final(self).state is Flushing,
            final(self).staged@ == old(self).staged@,
            a is Commit,
    {
        self.state = RwState::Flushing;
        RwAction::Commit
    }

    /// Consumes a read failure. The run is aborted: the staging buffer is
    /// discarded, never committed, so the original file stays as it was.
    pub fn on_read_error(&mut self) -> (a: RwAction)
        requires
            old(self).state is Scanning,
            old(self).wf(),
        ensures
            final(self).pattern == old(self).pattern,
            final(self).replacement == old(self).replacement,
            final(self).wf(),
            final(self).state is Aborted,
            final(self).staged@ == old(self).staged@,
            a is Discard,
    {
        self.state = RwState::Aborted;
        RwAction::Discard
    }

    /// Records that the atomic persist of the staging buffer succeeded.
    pub fn on_commit_ok(&mut self)
        requires
            old(self).state is Flushing,
            old(self).wf(),
        ensures
            final(self).pattern == old(self).pattern,
            final(self).replacement == old(self).replacement,
            final(self).wf(),
            final(self).state is Committed,
            final(self).staged@ == old(self).staged@,
    {
        self.state = RwState::Committed;
    }

    /// Records that the atomic persist failed; the original file is
    /// untouched, since replacement was a single atomic step.
    pub fn on_commit_error(&mut self)
        requires
            old(self).state is Flushing,
            old(self).wf(),
        ensures
            final(self).pattern == old(self).pattern,
            final(self).replacement == old(self).replacement,
            final(self).wf(),
            final(self).state is Aborted,
            final(self).staged@ == old(self).staged@,
    {
        self.state = RwState::Aborted;
    }
}

/// The content a whole run stages for a file: each raw input line is
/// trimmed, then rewritten or kept according to that line's decision.
pub open spec fn run_output_spec(
    pat: Seq<char>,
    rep: Seq<char>,
    lines: Seq<Seq<char>>,
    accepts: Seq<bool>,
) -> Seq<Seq<char>> {
    Seq::new(lines.len(), |i: int| line_output_spec(pat, rep, trim_spec(lines[i]), accepts[i]))
}

/// Rewrites a whole file's lines under a fixed sequence of decisions:
/// the headless form of the interactive run, with `accepts[i]` standing
/// for the answer given at line `i` (ignored where the line has no match).
pub fn rewrite_all(search: &VimSearch, lines: &Vec<String>, accepts: &Vec<bool>) -> (out: Vec<
    String,
>)
    requires
        lines@.len() == accepts@.len(),
    ensures
        out@.len() == lines@.len(),
        forall|i: int|
            0 <= i < out@.len() ==> out@[i]@ == run_output_spec(
                search.search_pattern@,
                search.replacement@,
                lines.deep_view(),
                accepts@,
            )[i],
{
    let mut out: Vec<String> = Vec::new();
    let mut i: usize = 0;
    while i < lines.len()
        invariant
            i <= lines@.len(),
            lines@.len() == accepts@.len(),
            out@.len() == i,
            forall|j: int|
                0 <= j < i ==> out@[j]@ == run_output_spec(
                    search.search_pattern@,
                    search.replacement@,
                    lines.deep_view(),
                    accepts@,
                )[j],
        decreases lines@.len() - i,
    {
        let trimmed = trim_line(lines[i].as_str());
        let staged = output_line(
            search.search_pattern.as_str(),
            search.replacement.as_str(),
            trimmed.as_str(),
            accepts[i],
        );
        out.push(staged);
        i = i + 1;
    }
    out
}

/// Rejecting every match leaves every (trimmed) line unchanged: the run's
/// output is exactly the trimmed input, and it is the input itself when
/// the input lines carry no leading or trailing whitespace.
pub proof fn lemma_reject_all_is_trim(
    pat: Seq<char>,
    rep: Seq<char>,
    lines: Seq<Seq<char>>,
    accepts: Seq<bool>,
)
    requires
        accepts.len() == lines.len(),
        forall|i: int| 0 <= i < accepts.len() ==> !accepts[i],
    ensures
        run_output_spec(pat, rep, lines, accepts) == lines.map_values(
            |l: Seq<char>| trim_spec(l),
        ),
        (forall|i: int| 0 <= i < lines.len() ==> trim_spec(lines[i]) == lines[i])
            ==> run_output_spec(pat, rep, lines, accepts) == lines,
{
    assert(run_output_spec(pat, rep, lines, accepts) =~= lines.map_values(
        |l: Seq<char>| trim_spec(l),
    ));
    if forall|i: int| 0 <= i < lines.len() ==> trim_spec(lines[i]) == lines[i] {
        assert(run_output_spec(pat, rep, lines, accepts) =~= lines);
    }
}

/// Running the tool twice with every decision rejected changes nothing
/// after the first run: the second run's output equals the first run's,
/// byte for byte — so a file that the first run left unchanged (one whose
/// lines were already trimmed) comes out of both runs identical to the
/// original.
pub proof fn lemma_reject_all_idempotent(
    pat: Seq<char>,
    rep: Seq<char>,
    lines: Seq<Seq<char>>,
    accepts1: Seq<bool>,
    accepts2: Seq<bool>,
)
    requires
        accepts1.len() == lines.len(),
        accepts2.len() == lines.len(),
        forall|i: int| 0 <= i < accepts1.len() ==> !accepts1[i],
        forall|i: int| 0 <= i < accepts2.len() ==> !accepts2[i],
    ensures
        run_output_spec(pat, rep, run_output_spec(pat, rep, lines, accepts1), accepts2)
            == run_output_spec(pat, rep, lines, accepts1),
{
    let once = run_output_spec(pat, rep, lines, accepts1);
    assert forall|i: int| 0 <= i < once.len() implies trim_spec(once[i]) == once[i] by {
        lemma_trim_idempotent(lines[i]);
    }
    lemma_reject_all_is_trim(pat, rep, once, accepts2);
    assert(once.map_values(|l: Seq<char>| trim_spec(l)) =~= once);
}

} // verus!
