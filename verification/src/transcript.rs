//! Finding the context usage in session transcripts: the usage of the last
//! assistant message, or of the message a summary points to, and the order
//! in which a project's sessions are tried.
use vstd::prelude::*;

use crate::text::string_eq;

verus! {

broadcast use vstd::string::group_string_axioms;

/// What the lookup reads from one line of a transcript.
pub struct TranscriptRecord {
    /// The entry's `type` ("user", "assistant", "summary", ...).
    pub kind: Option<String>,
    pub uuid: Option<String>,
    pub parent_uuid: Option<String>,
    /// The message a summary entry stands for.
    pub leaf_uuid: Option<String>,
    /// The tokens its message's usage counts, when it has a usage.
    pub usage_tokens: Option<u32>,
}

/// What the last line and the assistant messages of a transcript say.
pub enum TranscriptScan {
    /// The usage of the last assistant message that has one.
    Usage(u32),
    /// The transcript ends with a summary: the usage is that of the message
    /// it stands for, to be looked up across the project's transcripts.
    FollowLeaf(String),
    /// No usage is known.
    NoUsage,
}

/// The record has `kind` as its type.
pub open spec fn has_kind(r: TranscriptRecord, kind: Seq<char>) -> bool {
    r.kind matches Some(k) && k@ == kind
}

/// The record has `id` as its uuid.
pub open spec fn has_uuid(r: TranscriptRecord, id: Seq<char>) -> bool {
    r.uuid matches Some(u) && u@ == id
}

/// The usage of the record when it is an assistant message with a usage.
pub open spec fn assistant_usage(line: Option<TranscriptRecord>) -> Option<u32> {
    match line {
        Some(r) => if has_kind(r, "assistant"@) {
            r.usage_tokens
        } else {
            None
        },
        None => None,
    }
}

/// The usage of the last assistant message with a usage among the first `n` lines.
pub open spec fn last_assistant_usage(lines: Seq<Option<TranscriptRecord>>, n: int) -> Option<u32>
    decreases n,
{
    if n <= 0 {
        None
    } else {
        match assistant_usage(lines[n - 1]) {
            Some(u) => Some(u),
            None => last_assistant_usage(lines, n - 1),
        }
    }
}

/// The uuid of the message a summary stands for, when `line` is such a summary.
pub open spec fn summary_leaf(line: Option<TranscriptRecord>) -> Option<Seq<char>> {
    match line {
        Some(r) => if has_kind(r, "summary"@) {
            match r.leaf_uuid {
                Some(l) => Some(l@),
                None => None,
            }
        } else {
            None
        },
        None => None,
    }
}

/// The abstract outcome of a scan.
pub enum ScanOutcome {
    Usage(u32),
    FollowLeaf(Seq<char>),
    NoUsage,
}

pub open spec fn scan_view(s: TranscriptScan) -> ScanOutcome {
    match s {
        TranscriptScan::Usage(u) => ScanOutcome::Usage(u),
        TranscriptScan::FollowLeaf(l) => ScanOutcome::FollowLeaf(l@),
        TranscriptScan::NoUsage => ScanOutcome::NoUsage,
    }
}

/// What a transcript says of the usage: a last line that is a summary with a
/// leaf points elsewhere; otherwise the last assistant message with a usage
/// gives it. Lines that are blank or not entries are `None`.
pub open spec fn scan_outcome(lines: Seq<Option<TranscriptRecord>>) -> ScanOutcome {
    if lines.len() == 0 {
        ScanOutcome::NoUsage
    } else {
        match summary_leaf(lines.last()) {
            Some(l) => ScanOutcome::FollowLeaf(l),
            None => match last_assistant_usage(lines, lines.len() as int) {
                Some(u) => ScanOutcome::Usage(u),
                None => ScanOutcome::NoUsage,
            },
        }
    }
}

/// The first line at or after `i` whose entry has the uuid `id`.
pub open spec fn first_with_uuid(lines: Seq<Option<TranscriptRecord>>, id: Seq<char>, i: int) -> Option<int>
    decreases lines.len() - i,
{
    if i < 0 || i >= lines.len() {
        None
    } else if lines[i] matches Some(r) && has_uuid(r, id) {
        Some(i)
    } else {
        first_with_uuid(lines, id, i + 1)
    }
}

/// The usage of the first assistant message at or after `i` with the uuid
/// `id` and a usage.
pub open spec fn assistant_usage_by_uuid(
    lines: Seq<Option<TranscriptRecord>>,
    id: Seq<char>,
    i: int,
) -> Option<u32>
    decreases lines.len() - i,
{
    if i < 0 || i >= lines.len() {
        None
    } else if lines[i] matches Some(r) && has_uuid(r, id) && assistant_usage(lines[i]) is Some {
        assistant_usage(lines[i])
    } else {
        assistant_usage_by_uuid(lines, id, i + 1)
    }
}

/// The usage of the message `id` in a transcript: the first entry with that
/// uuid decides; an assistant message gives its usage, a user message the
/// usage of the assistant message that is its parent.
pub open spec fn usage_of_message(lines: Seq<Option<TranscriptRecord>>, id: Seq<char>) -> Option<u32> {
    match first_with_uuid(lines, id, 0) {
        None => None,
        Some(i) => {
            let r = lines[i]->0;
            if has_kind(r, "assistant"@) {
                r.usage_tokens
            } else if has_kind(r, "user"@) {
                match r.parent_uuid {
                    Some(p) => assistant_usage_by_uuid(lines, p@, 0),
                    None => None,
                }
            } else {
                None
            }
        },
    }
}

/// Session `i` comes before session `j` when it was modified later, or at
/// the same time and listed later.
pub open spec fn comes_before(keys: Seq<i128>, i: int, j: int) -> bool {
    keys[i] > keys[j] || (keys[i] == keys[j] && i > j)
}

/// `order` lists every index of `keys` once, most recent first.
pub open spec fn newest_first_order(keys: Seq<i128>, order: Seq<usize>) -> bool {
    &&& order.len() == keys.len()
    &&& forall|k: int| 0 <= k < order.len() ==> #[trigger] order[k] < keys.len()
    &&& forall|a: int, b: int|
        0 <= a < b < order.len() ==> comes_before(keys, #[trigger] order[a] as int, #[trigger] order[b] as int)
}

// ---------------------------------------------------------------------------
// Laws
// ---------------------------------------------------------------------------

/// Line `k` is an assistant entry whose message has the usage `u`.
pub open spec fn is_assistant_with_usage(lines: Seq<Option<TranscriptRecord>>, k: int, u: u32) -> bool {
    &&& 0 <= k < lines.len()
    &&& lines[k] matches Some(r)
    &&& r.kind matches Some(kind)
    &&& kind@ == "assistant"@
    &&& r.usage_tokens == Some(u)
}

/// Line `k` is an assistant entry whose message has some usage.
pub open spec fn has_assistant_usage(lines: Seq<Option<TranscriptRecord>>, k: int) -> bool {
    exists|u: u32| is_assistant_with_usage(lines, k, u)
}

/// The last line is a summary that names the message it stands for.
pub open spec fn ends_with_summary_leaf(lines: Seq<Option<TranscriptRecord>>, leaf: Seq<char>) -> bool {
    &&& lines.len() > 0
    &&& lines.last() matches Some(r)
    &&& r.kind matches Some(kind)
    &&& kind@ == "summary"@
    &&& r.leaf_uuid matches Some(l)
    &&& l@ == leaf
}

proof fn lemma_last_assistant_usage_finds(lines: Seq<Option<TranscriptRecord>>, k: int, u: u32, n: int)
    requires
        is_assistant_with_usage(lines, k, u),
        k < n <= lines.len(),
        forall|j: int| k < j < lines.len() ==> !has_assistant_usage(lines, j),
    ensures
        last_assistant_usage(lines, n) == Some(u),
    decreases n,
{
    if n - 1 > k {
        if assistant_usage(lines[n - 1]) is Some {
            assert(is_assistant_with_usage(lines, n - 1, assistant_usage(lines[n - 1])->0));
            assert(has_assistant_usage(lines, n - 1));
        }
        lemma_last_assistant_usage_finds(lines, k, u, n - 1);
    } else {
        assert(assistant_usage(lines[k]) == Some(u));
    }
}

proof fn lemma_last_assistant_usage_none(lines: Seq<Option<TranscriptRecord>>, n: int)
    requires
        n <= lines.len(),
        forall|j: int| 0 <= j < n ==> !has_assistant_usage(lines, j),
    ensures
        last_assistant_usage(lines, n) is None,
    decreases n,
{
    if n > 0 {
        if assistant_usage(lines[n - 1]) is Some {
            assert(is_assistant_with_usage(lines, n - 1, assistant_usage(lines[n - 1])->0));
            assert(has_assistant_usage(lines, n - 1));
        }
        lemma_last_assistant_usage_none(lines, n - 1);
    }
}

/// A transcript that ends with a summary naming a message points to that
/// message. Otherwise the usage reported is that of the assistant entry with
/// a usage at the greatest line index, the last line included; with no such
/// entry no usage is known.
pub proof fn lemma_scan_reports_latest_assistant_usage(lines: Seq<Option<TranscriptRecord>>)
    ensures
        forall|leaf: Seq<char>|
            ends_with_summary_leaf(lines, leaf) ==> scan_outcome(lines) == ScanOutcome::FollowLeaf(
                leaf,
            ),
        forall|k: int, u: u32|
            (forall|leaf: Seq<char>| !ends_with_summary_leaf(lines, leaf)) && is_assistant_with_usage(
                lines,
                k,
                u,
            ) && (forall|j: int| k < j < lines.len() ==> !has_assistant_usage(lines, j))
                ==> scan_outcome(lines) == ScanOutcome::Usage(u),
        (forall|leaf: Seq<char>| !ends_with_summary_leaf(lines, leaf)) && (forall|j: int|
            0 <= j < lines.len() ==> !has_assistant_usage(lines, j)) ==> scan_outcome(lines)
            == ScanOutcome::NoUsage,
{
    if lines.len() > 0 {
        if summary_leaf(lines.last()) is Some {
            assert(ends_with_summary_leaf(lines, summary_leaf(lines.last())->0));
        }
    }
    assert forall|k: int, u: u32|
        (forall|leaf: Seq<char>| !ends_with_summary_leaf(lines, leaf)) && is_assistant_with_usage(
            lines,
            k,
            u,
        ) && (forall|j: int| k < j < lines.len() ==> !has_assistant_usage(lines, j)) implies scan_outcome(
        lines,
    ) == ScanOutcome::Usage(u) by {
        lemma_last_assistant_usage_finds(lines, k, u, lines.len() as int);
    }
    if (forall|leaf: Seq<char>| !ends_with_summary_leaf(lines, leaf)) && (forall|j: int|
        0 <= j < lines.len() ==> !has_assistant_usage(lines, j)) {
        lemma_last_assistant_usage_none(lines, lines.len() as int);
    }
}

/// The order of `newest_first` lists each session exactly once.
pub proof fn lemma_newest_first_is_permutation(keys: Seq<i128>, order: Seq<usize>)
    requires
        newest_first_order(keys, order),
        keys.len() <= usize::MAX,
    ensures
        order.no_duplicates(),
        forall|i: usize| i < keys.len() ==> #[trigger] order.contains(i),
{
    assert forall|a: int, b: int|
        0 <= a < order.len() && 0 <= b < order.len() && a != b implies order[a] != order[b] by {
        if a < b {
            assert(comes_before(keys, order[a] as int, order[b] as int));
        } else {
            assert(comes_before(keys, order[b] as int, order[a] as int));
        }
    }
    let n = keys.len();
    assert forall|i: usize| i < n implies #[trigger] order.contains(i) by {
        lemma_pigeonhole(order, i, n);
    }
}

/// n distinct indices below n leave none of them out.
proof fn lemma_pigeonhole(order: Seq<usize>, missing: usize, n: nat)
    requires
        order.len() == n,
        n <= usize::MAX + 1,
        missing < n,
        forall|k: int| 0 <= k < n ==> #[trigger] order[k] < n,
        order.no_duplicates(),
    ensures
        order.contains(missing),
{
    if !order.contains(missing) {
        let s = order.to_set();
        let full = Set::new(|x: usize| x < n && x != missing);
        assert(s.subset_of(full)) by {
            assert forall|x: usize| s.contains(x) implies full.contains(x) by {
                let k = choose|k: int| 0 <= k < order.len() && order[k] == x;
            }
        }
        lemma_range_set_len(n, missing);
        order.unique_seq_to_set();
        vstd::set_lib::lemma_len_subset(s, full);
    }
}

/// The indices below n other than `missing` are n - 1.
proof fn lemma_range_set_len(n: nat, missing: usize)
    requires
        missing < n,
        n <= usize::MAX + 1,
    ensures
        Set::new(|x: usize| x < n && x != missing).finite(),
        Set::new(|x: usize| x < n && x != missing).len() == n - 1,
{
    let full = Set::new(|x: usize| x < n && x != missing);
    let all = Set::new(|x: usize| x < n);
    lemma_usize_range_len(n);
    assert(full =~= all.remove(missing));
}

proof fn lemma_usize_range_len(n: nat)
    requires
        n <= usize::MAX + 1,
    ensures
        Set::new(|x: usize| x < n).finite(),
        Set::new(|x: usize| x < n).len() == n,
    decreases n,
{
    if n == 0 {
        assert(Set::new(|x: usize| x < n) =~= Set::empty());
    } else {
        lemma_usize_range_len((n - 1) as nat);
        assert(Set::new(|x: usize| x < n) =~= Set::new(|x: usize| x < (n - 1) as nat).insert(
            (n - 1) as usize,
        ));
    }
}

// ---------------------------------------------------------------------------
// Executable functions
// ---------------------------------------------------------------------------

fn record_has_kind(r: &TranscriptRecord, kind: &str) -> (b: bool)
    ensures
        b == has_kind(*r, kind@),
{
    match &r.kind {
        Some(k) => string_eq(k, kind),
        None => false,
    }
}

fn record_has_uuid(r: &TranscriptRecord, id: &str) -> (b: bool)
    ensures
        b == has_uuid(*r, id@),
{
    match &r.uuid {
        Some(u) => string_eq(u, id),
        None => false,
    }
}

fn assistant_usage_exec(line: &Option<TranscriptRecord>) -> (u: Option<u32>)
    ensures
        u == assistant_usage(*line),
{
    match line {
        Some(r) => if record_has_kind(r, "assistant") {
            r.usage_tokens
        } else {
            None
        },
        None => None,
    }
}

/// What the transcript's lines say of the usage.
pub fn scan_transcript(lines: &Vec<Option<TranscriptRecord>>) -> (s: TranscriptScan)
    ensures
        scan_view(s) == scan_outcome(lines@),
{
    let n = lines.len();
    if n == 0 {
        return TranscriptScan::NoUsage;
    }
    match &lines[n - 1] {
        Some(r) => {
            if record_has_kind(r, "summary") {
                match &r.leaf_uuid {
                    Some(l) => {
                        return TranscriptScan::FollowLeaf(l.clone());
                    },
                    None => {},
                }
            }
        },
        None => {},
    }
    let mut k: usize = n;
    while k > 0
        invariant
            k <= n == lines.len(),
            n > 0,
            summary_leaf(lines@.last()) is None,
            last_assistant_usage(lines@, n as int) == last_assistant_usage(lines@, k as int),
        decreases k,
    {
        match assistant_usage_exec(&lines[k - 1]) {
            Some(u) => {
                return TranscriptScan::Usage(u);
            },
            None => {},
        }
        k = k - 1;
    }
    TranscriptScan::NoUsage
}

/// The usage of the first assistant message with the uuid `id` and a usage.
pub fn find_assistant_message_by_uuid(lines: &Vec<Option<TranscriptRecord>>, id: &str) -> (u:
    Option<u32>)
    ensures
        u == assistant_usage_by_uuid(lines@, id@, 0),
{
    let mut k: usize = 0;
    while k < lines.len()
        invariant
            k <= lines.len(),
            assistant_usage_by_uuid(lines@, id@, 0) == assistant_usage_by_uuid(
                lines@,
                id@,
                k as int,
            ),
        decreases lines.len() - k,
    {
        match &lines[k] {
            Some(r) => {
                if record_has_uuid(r, id) {
                    match assistant_usage_exec(&lines[k]) {
                        Some(u) => {
                            return Some(u);
                        },
                        None => {},
                    }
                }
            },
            None => {},
        }
        k = k + 1;
    }
    None
}

/// The usage of the message `id` in a transcript.
pub fn search_uuid_in_lines(lines: &Vec<Option<TranscriptRecord>>, id: &str) -> (u: Option<u32>)
    ensures
        u == usage_of_message(lines@, id@),
{
    let mut k: usize = 0;
    while k < lines.len()
        invariant
            k <= lines.len(),
            first_with_uuid(lines@, id@, 0) == first_with_uuid(lines@, id@, k as int),
        decreases lines.len() - k,
    {
        match &lines[k] {
            Some(r) => {
                if record_has_uuid(r, id) {
                    if record_has_kind(r, "assistant") {
                        return r.usage_tokens;
                    } else if record_has_kind(r, "user") {
                        return match &r.parent_uuid {
                            Some(p) => find_assistant_message_by_uuid(lines, p.as_str()),
                            None => None,
                        };
                    }
                    return None;
                }
            },
            None => {},
        }
        k = k + 1;
    }
    None
}

/// Where the usage comes from once the session's own transcript was read.
pub enum UsageLookup {
    /// The transcript (or the message a summary in it stands for) gave the usage.
    Found(u32),
    /// The transcript does not exist: the project's other sessions are tried.
    SearchHistory,
    /// No usage is known.
    NotFound,
}

/// The next step of the usage lookup, after reading the session's transcript:
/// its usage when it gave one; the project's history when the transcript
/// file does not exist; otherwise nothing.
pub fn usage_after_transcript(from_transcript: Option<u32>, transcript_exists: bool) -> (r:
    UsageLookup)
    ensures
        match from_transcript {
            Some(u) => r == UsageLookup::Found(u),
            None => if transcript_exists {
                r == UsageLookup::NotFound
            } else {
                r == UsageLookup::SearchHistory
            },
        },
{
    match from_transcript {
        Some(u) => UsageLookup::Found(u),
        None => if transcript_exists {
            UsageLookup::NotFound
        } else {
            UsageLookup::SearchHistory
        },
    }
}

fn comes_before_exec(keys: &Vec<i128>, i: usize, j: usize) -> (b: bool)
    requires
        i < keys.len(),
        j < keys.len(),
    ensures
        b == comes_before(keys@, i as int, j as int),
{
    keys[i] > keys[j] || (keys[i] == keys[j] && i > j)
}

/// The indices of sessions with modification times `keys`, most recent
/// first; sessions modified at the same time come in the reverse of their
/// listed order.
pub fn newest_first(keys: &Vec<i128>) -> (order: Vec<usize>)
    ensures
        newest_first_order(keys@, order@),
{
    let n = keys.len();
    let mut order: Vec<usize> = Vec::new();
    let mut i: usize = 0;
    while i < n
        invariant
            i <= n == keys.len(),
            order.len() == i,
            forall|k: int| 0 <= k < order.len() ==> #[trigger] order@[k] < i,
            forall|a: int, b: int|
                0 <= a < b < order.len() ==> comes_before(keys@, #[trigger] order@[a] as int, #[trigger] order@[b] as int),
        decreases n - i,
    {
        let mut p: usize = 0;
        while p < order.len() && !comes_before_exec(keys, i, order[p])
            invariant
                p <= order.len() == i,
                i < n == keys.len(),
                forall|k: int| 0 <= k < order.len() ==> #[trigger] order@[k] < i,
                forall|k: int| 0 <= k < p ==> comes_before(keys@, #[trigger] order@[k] as int, i as int),
            decreases order.len() - p,
        {
            p = p + 1;
        }
        let ghost before = order@;
        order.insert(p, i);
        proof {
            assert forall|k: int| 0 <= k < order.len() implies #[trigger] order@[k] < i + 1 by {
                if k < p {
                    assert(order@[k] == before[k]);
                } else if k > p {
                    assert(order@[k] == before[k - 1]);
                }
            }
            assert forall|a: int, b: int| 0 <= a < b < order.len() implies comes_before(
                keys@,
                #[trigger] order@[a] as int,
                #[trigger] order@[b] as int,
            ) by {
                if b < p {
                    assert(order@[a] == before[a] && order@[b] == before[b]);
                } else if b == p {
                    assert(order@[a] == before[a]);
                } else if a < p {
                    assert(order@[a] == before[a] && order@[b] == before[b - 1]);
                } else if a == p {
                    assert(order@[b] == before[b - 1]);
                    assert(comes_before(keys@, i as int, before[p as int] as int));
                    if b - 1 > p {
                        assert(comes_before(keys@, before[p as int] as int, before[b - 1] as int));
                    }
                } else {
                    assert(order@[a] == before[a - 1] && order@[b] == before[b - 1]);
                }
            }
        }
        i = i + 1;
    }
    order
}

} // verus!
