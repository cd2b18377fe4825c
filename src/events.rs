//! Recognising "join" and "leave" events in log text and resolving the
//! session they imply.

use regex::Regex;
use vstd::prelude::*;

verus! {

#[verifier::external_type_specification]
#[verifier::external_body]
pub struct ExRegex(Regex);

#[verifier::external_type_specification]
#[verifier::external_body]
pub struct ExRegexError(regex::Error);

/// Pattern of a line announcing that the client joins a game; group 1 is the id.
pub const JOIN_PATTERN: &'static str = r"Joining game '([a-f0-9-]+)'";

/// Pattern of any of the disconnect phrases.
pub const LEAVE_PATTERN: &'static str = r"Disconnect from game|leaveGameInternal|leaveUGCGameInternal";

/// Session token that stands for "not in a game".
pub const DEFAULT_JOB_ID: &'static str = "global";

/// Session token that stands for "not in a game", as characters.
pub open spec fn default_job_id() -> Seq<char> {
    seq!['g', 'l', 'o', 'b', 'a', 'l']
}

/// Every match of the join pattern in `text`, in order: the byte offset where
/// the match starts and the captured session id.
pub uninterp spec fn join_matches_of(text: Seq<char>) -> Seq<(int, Seq<char>)>;

/// The byte offset where each match of the leave pattern in `text` starts, in order.
pub uninterp spec fn leave_starts_of(text: Seq<char>) -> Seq<int>;

/// Start offsets of successive non-overlapping matches strictly increase.
pub open spec fn increasing(starts: Seq<int>) -> bool {
    forall|i: int, j: int| 0 <= i < j < starts.len() ==> starts[i] < starts[j]
}

pub open spec fn join_starts(joins: Seq<(int, Seq<char>)>) -> Seq<int> {
    joins.map_values(|m: (int, Seq<char>)| m.0)
}

/// A join event found in a text slice.
pub struct JoinMatch {
    pub start: usize,
    pub id: String,
}

impl JoinMatch {
    pub open spec fn view_pair(&self) -> (int, Seq<char>) {
        (self.start as int, self.id@)
    }
}

pub open spec fn join_pairs(v: Seq<JoinMatch>) -> Seq<(int, Seq<char>)> {
    v.map_values(|m: JoinMatch| m.view_pair())
}

/// The two event patterns, compiled once and handed to the extraction functions.
pub struct EventPatterns {
    join: Regex,
    leave: Regex,
}

/// Relies on regex::Regex::new: compiles a pattern or reports why it cannot.
#[verifier::external_body]
pub(crate) fn compile(pattern: &str) -> Result<Regex, regex::Error> {
    Regex::new(pattern)
}

/// Relies on regex::Regex::captures_iter with the join pattern: successive
/// non-overlapping matches, each mapped to its start offset and group 1.
#[verifier::external_body]
fn captures_of_join(p: &EventPatterns, text: &str) -> (r: Vec<JoinMatch>)
    ensures
        join_pairs(r@) == join_matches_of(text@),
        increasing(join_starts(join_pairs(r@))),
{
    p.join.captures_iter(text).map(|c| JoinMatch {
            start: c.get_match().start(),
            id: c.get(1).map_or(String::new(), |m| m.as_str().to_string()),
        }).collect()
}

/// Relies on regex::Regex::find_iter with the leave pattern: successive
/// non-overlapping matches, each mapped to its start offset.
#[verifier::external_body]
fn finds_of_leave(p: &EventPatterns, text: &str) -> (r: Vec<usize>)
    ensures
        r@.map_values(|x: usize| x as int) == leave_starts_of(text@),
        increasing(r@.map_values(|x: usize| x as int)),
{
    p.leave.find_iter(text).map(|m| m.start()).collect()
}

impl EventPatterns {
    /// Compiles the two event patterns.
    pub fn new() -> (r: Result<EventPatterns, regex::Error>) {
        let join = match compile(JOIN_PATTERN) {
            Ok(re) => re,
            Err(e) => return Err(e),
        };
        let leave = match compile(LEAVE_PATTERN) {
            Ok(re) => re,
            Err(e) => return Err(e),
        };
        Ok(EventPatterns { join, leave })
    }

    /// The join events of `text`, in order.
    pub fn join_matches(&self, text: &str) -> (r: Vec<JoinMatch>)
        ensures
            join_pairs(r@) == join_matches_of(text@),
    {
        captures_of_join(self, text)
    }

    /// Start offsets of the leave events of `text`, in order.
    pub fn leave_starts(&self, text: &str) -> (r: Vec<usize>)
        ensures
            r@.map_values(|x: usize| x as int) == leave_starts_of(text@),
    {
        finds_of_leave(self, text)
    }
}


pub open spec fn opt_view(o: Option<String>) -> Option<Seq<char>> {
    match o {
        Some(s) => Some(s@),
        None => None,
    }
}

pub open spec fn usize_ints(v: Seq<usize>) -> Seq<int> {
    v.map_values(|x: usize| x as int)
}

pub open spec fn string_views(v: Seq<String>) -> Seq<Seq<char>> {
    v.map_values(|s: String| s@)
}

/// Session implied by one text slice under last-event-wins, from its join
/// matches and leave starts: nothing when the slice holds no event, the
/// default token when the last event is a leave (a leave wins a tie of
/// offsets), else the id of the last join.
pub open spec fn slice_job_id(joins: Seq<(int, Seq<char>)>, leaves: Seq<int>) -> Option<Seq<char>> {
    if joins.len() == 0 && leaves.len() == 0 {
        None
    } else if joins.len() == 0 {
        Some(default_job_id())
    } else if leaves.len() == 0 {
        Some(joins.last().1)
    } else if leaves.last() >= joins.last().0 {
        Some(default_job_id())
    } else {
        Some(joins.last().1)
    }
}

/// Session after one line, read in file order: a join on the line sets its id,
/// else a leave on the line sets the default token, else nothing changes.
pub open spec fn line_job_id(line: Seq<char>, current: Seq<char>) -> Seq<char> {
    if join_matches_of(line).len() > 0 {
        join_matches_of(line)[0].1
    } else if leave_starts_of(line).len() > 0 {
        default_job_id()
    } else {
        current
    }
}

/// Session after reading `lines` one by one, starting from `init`.
pub open spec fn fold_lines(lines: Seq<Seq<char>>, init: Seq<char>) -> Seq<char>
    decreases lines.len(),
{
    if lines.len() == 0 {
        init
    } else {
        line_job_id(lines.last(), fold_lines(lines.drop_last(), init))
    }
}

/// The default session token as a `String`.
pub fn default_job_id_string() -> (r: String)
    ensures
        r@ == default_job_id(),
{
    proof {
        reveal_strlit("global");
    }
    String::from_str("global")
}

/// Resolves a slice's events by last-event-wins (see `slice_job_id`).
pub fn resolve_job_id(joins: &Vec<JoinMatch>, leaves: &Vec<usize>) -> (r: Option<String>)
    ensures
        opt_view(r) == slice_job_id(join_pairs(joins@), usize_ints(leaves@)),
{
    let nj = joins.len();
    let nl = leaves.len();
    if nj == 0 && nl == 0 {
        None
    } else if nj == 0 {
        Some(default_job_id_string())
    } else if nl == 0 {
        Some(joins[nj - 1].id.clone())
    } else if leaves[nl - 1] >= joins[nj - 1].start {
        Some(default_job_id_string())
    } else {
        Some(joins[nj - 1].id.clone())
    }
}

/// Session implied by a text slice: its last event decides (see `slice_job_id`).
pub fn job_id_from_text_slice(patterns: &EventPatterns, text: &str) -> (r: Option<String>)
    ensures
        opt_view(r) == slice_job_id(join_matches_of(text@), leave_starts_of(text@)),
{
    let joins = patterns.join_matches(text);
    let leaves = patterns.leave_starts(text);
    resolve_job_id(&joins, &leaves)
}

impl EventPatterns {

    /// Session after one line, starting from `current` (see `line_job_id`).
    pub fn apply_line(&self, current: String, line: &str) -> (r: String)
        ensures
            r@ == line_job_id(line@, current@),
    {
        let joins = self.join_matches(line);
        if joins.len() > 0 {
            return joins[0].id.clone();
        }
        let leaves = self.leave_starts(line);
        if leaves.len() > 0 {
            default_job_id_string()
        } else {
            current
        }
    }

    /// Session after reading `lines` in order, starting from `current`.
    pub fn fold_job_id(&self, current: String, lines: &Vec<String>) -> (r: String)
        ensures
            r@ == fold_lines(string_views(lines@), current@),
    {
        let ghost init = current@;
        let mut acc = current;
        let mut i: usize = 0;
        while i < lines.len()
            invariant
                i <= lines.len(),
                acc@ == fold_lines(string_views(lines@).take(i as int), init),
            decreases lines.len() - i,
        {
            acc = self.apply_line(acc, lines[i].as_str());
            proof {
                let vs = string_views(lines@);
                assert(vs.take(i + 1).drop_last() =~= vs.take(i as int));
            }
            i = i + 1;
        }
        proof {
            assert(string_views(lines@).take(i as int) =~= string_views(lines@));
        }
        acc
    }
}

/// A slice that holds join events and no leave event resolves to the id of the
/// join that starts last.
pub proof fn only_joins_resolve_to_last_join(joins: Seq<(int, Seq<char>)>, leaves: Seq<int>, k: int)
    requires
        increasing(join_starts(joins)),
        leaves.len() == 0,
        0 <= k < joins.len(),
        forall|i: int| 0 <= i < joins.len() ==> joins[i].0 <= joins[k].0,
    ensures
        slice_job_id(joins, leaves) == Some(joins[k].1),
{
    let last = joins.len() - 1;
    if k < last {
        assert(join_starts(joins)[k] < join_starts(joins)[last]);
        assert(joins[last].0 <= joins[k].0);
    }
}

/// A slice that holds leave events and no join event resolves to the default
/// session.
pub proof fn only_leaves_resolve_to_default(joins: Seq<(int, Seq<char>)>, leaves: Seq<int>)
    requires
        joins.len() == 0,
        leaves.len() > 0,
    ensures
        slice_job_id(joins, leaves) == Some(default_job_id()),
{
}

/// With both kinds present, only the latest-starting join and the
/// latest-starting leave matter: the leave wins when it starts at or after the
/// join, else the join's id is the result, whatever came before them.
pub proof fn latest_event_decides(joins: Seq<(int, Seq<char>)>, leaves: Seq<int>, kj: int, kl: int)
    requires
        increasing(join_starts(joins)),
        increasing(leaves),
        0 <= kj < joins.len(),
        0 <= kl < leaves.len(),
        forall|i: int| 0 <= i < joins.len() ==> joins[i].0 <= joins[kj].0,
        forall|i: int| 0 <= i < leaves.len() ==> leaves[i] <= leaves[kl],
    ensures
        slice_job_id(joins, leaves) == (if leaves[kl] >= joins[kj].0 {
            Some(default_job_id())
        } else {
            Some(joins[kj].1)
        }),
{
    let lj = joins.len() - 1;
    let ll = leaves.len() - 1;
    if kj < lj {
        assert(join_starts(joins)[kj] < join_starts(joins)[lj]);
        assert(joins[lj].0 <= joins[kj].0);
    }
    if kl < ll {
        assert(leaves[kl] < leaves[ll]);
        assert(leaves[ll] <= leaves[kl]);
    }
}

} // verus!
