//! Upstream activity records and their reduction to the two ticker
//! strings: filtering by age and by contribution kind, and formatting
//! each record into equal-width message and age segments.

use vstd::prelude::*;
use vstd::pervasive::unreached;
use vstd::seq_lib::group_seq_lib_default;
use vstd::string::StrSliceExecFns;
use vstd::string::StringExecFns;

verus! {

broadcast use group_seq_lib_default;

/// The repository an activity record points at.
pub struct Repo {
    pub name: String,
}

/// One upstream activity record: an RFC 3339 creation time, an event
/// kind, and the repository it happened in.
pub struct GitHubEvent {
    pub created_at: String,
    pub type_: String,
    pub repo: Repo,
}

/// What `parse_rfc3339_secs` returns for a text: the UNIX seconds of an
/// RFC 3339 date-and-time, or nothing where the text is not one.
pub uninterp spec fn rfc3339_secs(s: Seq<char>) -> Option<i64>;

/// Relies on chrono's `DateTime::parse_from_rfc3339`, with the parsed
/// instant read back through `DateTime::timestamp`: the outcome is a
/// function of the text alone.
#[verifier::external_body]
fn parse_rfc3339_secs(s: &str) -> (r: Option<i64>)
    ensures
        r == rfc3339_secs(s@),
{
    chrono::DateTime::parse_from_rfc3339(s).ok().map(|d| d.timestamp())
}

/// Relies on chrono's `DateTime::<Utc>::from_timestamp` and
/// `DateTime::to_rfc3339`, which round-trip with `parse_from_rfc3339`
/// and `timestamp` at the same whole second.  The admitted range keeps
/// the UTC year within 0001 through 9999: outside it `from_timestamp`
/// can fail, and the written year would not be the four digits that
/// `parse_from_rfc3339` accepts.
#[verifier::external_body]
fn secs_to_rfc3339(secs: i64) -> (r: String)
    requires
        -60000000000 <= secs <= 250000000000,
    ensures
        rfc3339_secs(r@) == Some(secs),
{
    chrono::DateTime::<chrono::Utc>::from_timestamp(secs, 0)
        .expect("seconds lie within the representable years")
        .to_rfc3339()
}

/// Relies on std's `SystemTime::now`; the rest converts the reading to
/// signed UNIX seconds, negating when the clock sits before the epoch
/// (where chrono's `Utc::now` would panic instead).  Nothing can be
/// promised of the clock value.
#[verifier::external_body]
fn now_secs() -> i64 {
    match std::time::SystemTime::now().duration_since(std::time::UNIX_EPOCH) {
        Ok(d) => d.as_secs().min(i64::MAX as u64) as i64,
        Err(e) => -(e.duration().as_secs().min(i64::MAX as u64) as i64),
    }
}

/// Build an activity record from plain values; the creation time is the
/// RFC 3339 text of the given UNIX seconds.
pub fn mk_event(event_type: &str, repo: &str, created_at: i64) -> (e: GitHubEvent)
    requires
        -60000000000 <= created_at <= 250000000000,
    ensures
        e.type_@ == event_type@,
        e.repo.name@ == repo@,
        rfc3339_secs(e.created_at@) == Some(created_at),
{
    GitHubEvent {
        created_at: secs_to_rfc3339(created_at),
        type_: event_type.to_owned(),
        repo: Repo { name: repo.to_owned() },
    }
}

/// Spaces of a given count.
pub open spec fn spec_spaces(k: nat) -> Seq<char>
    decreases k,
{
    if k == 0 {
        Seq::empty()
    } else {
        spec_spaces((k - 1) as nat) + " "@
    }
}

/// A text padded on the right with spaces up to a width; a text already
/// that wide is unchanged.
pub open spec fn spec_pad_right(s: Seq<char>, n: int) -> Seq<char> {
    if s.len() >= n {
        s
    } else {
        s + spec_spaces((n - s.len()) as nat)
    }
}

pub fn pad_right(s: &str, n: usize) -> (r: String)
    ensures
        r@ == spec_pad_right(s@, n as int),
{
    let len = s.unicode_len();
    let mut r = s.to_owned();
    if len >= n {
        proof {
            assert(r@ =~= spec_pad_right(s@, n as int));
        }
        return r;
    }
    let mut i: usize = len;
    proof {
        assert(r@ =~= s@ + spec_spaces(0));
    }
    while i < n
        invariant
            s@.len() <= i <= n,
            r@ == s@ + spec_spaces((i - s@.len()) as nat),
        decreases n - i,
    {
        r.append(" ");
        i = i + 1;
        proof {
            assert(r@ =~= s@ + spec_spaces((i - s@.len()) as nat));
        }
    }
    r
}

/// Equality of texts.
fn str_eq(a: &str, b: &str) -> (r: bool)
    ensures
        r == (a@ == b@),
{
    let sa = a.to_owned();
    let sb = b.to_owned();
    sa == sb
}

/// The event kinds that count as contributions.
pub open spec fn spec_is_contrib_type(t: Seq<char>) -> bool {
    ||| t == "PushEvent"@
    ||| t == "PullRequestEvent"@
    ||| t == "IssuesEvent"@
    ||| t == "IssueCommentEvent"@
    ||| t == "PullRequestReviewEvent"@
    ||| t == "PullRequestReviewCommentEvent"@
    ||| t == "CreateEvent"@
    ||| t == "ForkEvent"@
    ||| t == "WatchEvent"@
}

pub fn is_contrib_type(t: &str) -> (r: bool)
    ensures
        r == spec_is_contrib_type(t@),
{
    str_eq(t, "PushEvent") || str_eq(t, "PullRequestEvent") || str_eq(t, "IssuesEvent")
        || str_eq(t, "IssueCommentEvent") || str_eq(t, "PullRequestReviewEvent")
        || str_eq(t, "PullRequestReviewCommentEvent") || str_eq(t, "CreateEvent")
        || str_eq(t, "ForkEvent") || str_eq(t, "WatchEvent")
}

/// Filtering a sequence grown by one element keeps the filtered prefix
/// and appends the element exactly when it passes.
proof fn lemma_filter_push<A>(s: Seq<A>, pred: spec_fn(A) -> bool, e: A)
    ensures
        s.push(e).filter(pred) == if pred(e) {
            s.filter(pred).push(e)
        } else {
            s.filter(pred)
        },
{
    assert(s.push(e).drop_last() =~= s);
    assert(s.push(e).last() == e);
    reveal_with_fuel(Seq::filter, 2);
}

/// Keep only the contribution events, in order.
pub fn filter_contrib_events(events: &mut Vec<GitHubEvent>)
    ensures
        final(events)@ == old(events)@.filter(
            |e: GitHubEvent| spec_is_contrib_type(e.type_@),
        ),
{
    let ghost pred = |e: GitHubEvent| spec_is_contrib_type(e.type_@);
    let mut kept: Vec<GitHubEvent> = Vec::new();
    let ghost done = Seq::<GitHubEvent>::empty();
    proof {
        reveal_with_fuel(Seq::filter, 2);
        assert(kept@ =~= done.filter(pred));
    }
    while events.len() > 0
        invariant
            old(events)@ == done + events@,
            kept@ == done.filter(pred),
            pred == (|e: GitHubEvent| spec_is_contrib_type(e.type_@)),
        decreases events@.len(),
    {
        let e = events.remove(0);
        proof {
            assert(done.push(e) + events@ =~= old(events)@);
            lemma_filter_push(done, pred, e);
        }
        if is_contrib_type(e.type_.as_str()) {
            kept.push(e);
        }
        proof {
            done = done.push(e);
        }
    }
    proof {
        assert(done =~= old(events)@);
    }
    *events = kept;
}

/// Whether a record survives the age filter: its creation time parses
/// and lies strictly after the cutoff.
pub open spec fn spec_keeps_since(e: GitHubEvent, cutoff: int) -> bool {
    rfc3339_secs(e.created_at@) matches Some(t) && t > cutoff
}

/// The events created strictly after the cutoff, in order.
pub open spec fn spec_filter_since(events: Seq<GitHubEvent>, cutoff: int) -> Seq<GitHubEvent> {
    events.filter(|e: GitHubEvent| spec_keeps_since(e, cutoff))
}

/// Keep only the events created strictly after the cutoff, in order; an
/// event whose creation time does not parse is dropped.
pub fn filter_events_since(events: Vec<GitHubEvent>, cutoff: i64) -> (r: Vec<GitHubEvent>)
    ensures
        r@ == spec_filter_since(events@, cutoff as int),
{
    let ghost pred = |e: GitHubEvent| spec_keeps_since(e, cutoff as int);
    let mut rest = events;
    let mut kept: Vec<GitHubEvent> = Vec::new();
    let ghost done = Seq::<GitHubEvent>::empty();
    proof {
        reveal_with_fuel(Seq::filter, 2);
        assert(kept@ =~= done.filter(pred));
    }
    while rest.len() > 0
        invariant
            events@ == done + rest@,
            kept@ == done.filter(pred),
            pred == (|e: GitHubEvent| spec_keeps_since(e, cutoff as int)),
        decreases rest@.len(),
    {
        let e = rest.remove(0);
        proof {
            assert(done.push(e) + rest@ =~= events@);
            lemma_filter_push(done, pred, e);
        }
        let keep = match parse_rfc3339_secs(e.created_at.as_str()) {
            Some(t) => t > cutoff,
            None => false,
        };
        if keep {
            kept.push(e);
        }
        proof {
            done = done.push(e);
        }
    }
    proof {
        assert(done =~= events@);
    }
    kept
}

/// Keep only the events of the last `past_days` days, measured against
/// the clock at the moment of the call, in order.
pub fn filter_events_by_days(events: Vec<GitHubEvent>, past_days: u32) -> (r: Vec<GitHubEvent>)
    ensures
        exists|cutoff: int| r@ == #[trigger] spec_filter_since(events@, cutoff),
{
    let now = now_secs();
    let span = (past_days as i128) * 86400;
    let past = (now as i128) - span;
    let cutoff: i64 = if past < i64::MIN as i128 {
        i64::MIN
    } else {
        past as i64
    };
    let r = filter_events_since(events, cutoff);
    proof {
        assert(r@ == spec_filter_since(events@, cutoff as int));
    }
    r
}

/// One decimal digit as text.
pub open spec fn spec_digit_str(d: int) -> Seq<char> {
    if d == 0 {
        "0"@
    } else if d == 1 {
        "1"@
    } else if d == 2 {
        "2"@
    } else if d == 3 {
        "3"@
    } else if d == 4 {
        "4"@
    } else if d == 5 {
        "5"@
    } else if d == 6 {
        "6"@
    } else if d == 7 {
        "7"@
    } else {
        if d == 8 {
            "8"@
        } else {
            "9"@
        }
    }
}

/// The decimal digits of a non-negative number, most significant first.
pub open spec fn spec_digits(n: int) -> Seq<char>
    decreases n,
{
    if n < 10 {
        spec_digit_str(n)
    } else {
        spec_digits(n / 10) + spec_digit_str(n % 10)
    }
}

/// A number as decimal text, with a leading minus sign when negative.
pub open spec fn spec_int_str(n: int) -> Seq<char> {
    if n >= 0 {
        spec_digits(n)
    } else {
        "-"@ + spec_digits(-n)
    }
}

/// The age line of one record: "today", "1 day ago", or "N days ago".
pub open spec fn spec_days_label(d: int) -> Seq<char> {
    if d == 0 {
        "today"@
    } else if d == 1 {
        "1 day ago"@
    } else {
        spec_int_str(d) + " days ago"@
    }
}

/// Whole days from one instant back to another, truncated toward zero.
pub open spec fn spec_days_between(now: int, then: int) -> int {
    let d = now - then;
    if d >= 0 {
        d / 86400
    } else {
        -((-d) / 86400)
    }
}

/// Powers of ten.
pub open spec fn spec_pow10(k: nat) -> int
    decreases k,
{
    if k == 0 {
        1
    } else {
        10 * spec_pow10((k - 1) as nat)
    }
}

/// A number below the k-th power of ten has at most k digits.
proof fn lemma_digits_len(n: int, k: nat)
    requires
        0 <= n < spec_pow10(k),
        1 <= k,
    ensures
        spec_digits(n).len() <= k,
    decreases k,
{
    reveal_strlit("0");
    reveal_strlit("1");
    reveal_strlit("2");
    reveal_strlit("3");
    reveal_strlit("4");
    reveal_strlit("5");
    reveal_strlit("6");
    reveal_strlit("7");
    reveal_strlit("8");
    reveal_strlit("9");
    if n < 10 {
    } else {
        assert(k >= 2) by {
            if k == 1 {
                reveal_with_fuel(spec_pow10, 2);
                assert(spec_pow10(1) == 10);
            }
        }
        assert(0 <= n / 10 < spec_pow10((k - 1) as nat)) by (nonlinear_arith)
            requires n < spec_pow10(k) && 10 <= n && spec_pow10(k) == 10 * spec_pow10((k - 1) as nat);
        lemma_digits_len(n / 10, (k - 1) as nat);
    }
}

/// Append one decimal digit to the text.
fn append_digit(out: &mut String, d: u64)
    requires
        d < 10,
    ensures
        final(out)@ == old(out)@ + spec_digit_str(d as int),
{
    if d == 0 {
        out.append("0");
    } else if d == 1 {
        out.append("1");
    } else if d == 2 {
        out.append("2");
    } else if d == 3 {
        out.append("3");
    } else if d == 4 {
        out.append("4");
    } else if d == 5 {
        out.append("5");
    } else if d == 6 {
        out.append("6");
    } else if d == 7 {
        out.append("7");
    } else if d == 8 {
        out.append("8");
    } else {
        out.append("9");
    }
}

/// Append the decimal digits of a number to the text.
fn append_u64_digits(m: u64, out: &mut String)
    ensures
        final(out)@ == old(out)@ + spec_digits(m as int),
    decreases m,
{
    if m >= 10 {
        append_u64_digits(m / 10, out);
        append_digit(out, m % 10);
        proof {
            assert(out@ =~= old(out)@ + spec_digits(m as int));
        }
    } else {
        append_digit(out, m);
    }
}

/// A number as decimal text.
fn int_to_string(n: i64) -> (r: String)
    requires
        n > i64::MIN,
    ensures
        r@ == spec_int_str(n as int),
{
    let mut out = String::new();
    if n < 0 {
        out.append("-");
        append_u64_digits((-n) as u64, &mut out);
        proof {
            assert(out@ =~= spec_int_str(n as int));
        }
    } else {
        append_u64_digits(n as u64, &mut out);
        proof {
            assert(out@ =~= spec_int_str(n as int));
        }
    }
    out
}

/// The age line of one record, and a bound on its width.
fn days_label(days: i64) -> (r: String)
    requires
        -1000000000000000 <= days <= 1000000000000000,
    ensures
        r@ == spec_days_label(days as int),
        r@.len() <= 32,
{
    proof {
        reveal_strlit("today");
        reveal_strlit("1 day ago");
        reveal_strlit(" days ago");
        reveal_strlit("-");
        if days != 0 && days != 1 {
            let mag = if days >= 0 { days as int } else { -(days as int) };
            reveal_with_fuel(spec_pow10, 17);
            assert(spec_pow10(16) == 10000000000000000);
            lemma_digits_len(mag, 16);
        }
    }
    if days == 0 {
        String::from_str("today")
    } else if days == 1 {
        String::from_str("1 day ago")
    } else {
        let mut s = int_to_string(days);
        s.append(" days ago");
        s
    }
}

/// Whole days from one instant back to another, truncated toward zero.
fn days_between(now: i64, then: i64) -> (r: i64)
    ensures
        r == spec_days_between(now as int, then as int),
        -1000000000000000 <= r <= 1000000000000000,
{
    let d: i128 = now as i128 - then as i128;
    if d >= 0 {
        proof {
            assert(d / 86400 <= d) by (nonlinear_arith)
                requires d >= 0;
        }
        (d / 86400) as i64
    } else {
        proof {
            assert((-d) / 86400 <= -d) by (nonlinear_arith)
                requires d < 0;
        }
        -(((-d) / 86400) as i64)
    }
}

/// The message line of one record: its kind, "in", and its repository.
pub open spec fn spec_event_message(e: GitHubEvent) -> Seq<char> {
    e.type_@ + " in "@ + e.repo.name@
}

/// The age line of one record against a clock reading.
pub open spec fn spec_event_meta(e: GitHubEvent, now: int) -> Seq<char> {
    match rfc3339_secs(e.created_at@) {
        Some(t) => spec_days_label(spec_days_between(now, t as int)),
        None => Seq::empty(),
    }
}

/// The two ticker texts of a run of records against a clock reading:
/// each record contributes one message segment and one age segment,
/// both padded to the wider of the two plus a four-space gap.
pub open spec fn spec_ticker_texts(events: Seq<GitHubEvent>, now: int) -> (Seq<char>, Seq<char>)
    decreases events.len(),
{
    if events.len() == 0 {
        (Seq::empty(), Seq::empty())
    } else {
        let (pm, pa) = spec_ticker_texts(events.drop_last(), now);
        let m = spec_event_message(events.last());
        let a = spec_event_meta(events.last(), now);
        let w = if m.len() >= a.len() {
            m.len() + 4
        } else {
            a.len() + 4
        };
        (pm + spec_pad_right(m, w as int), pa + spec_pad_right(a, w as int))
    }
}

/// Reduce the records to the two scrolling ticker texts, against the
/// clock at the moment of the call; the flag says whether there was
/// anything to show.
pub fn parse_events_to_ticker(events: &[GitHubEvent]) -> (r: (String, String, bool))
    requires
        forall|i: int|
            0 <= i < events@.len() ==> (#[trigger] rfc3339_secs(events@[i].created_at@)) is Some,
        forall|i: int|
            0 <= i < events@.len()
                ==> (#[trigger] events@[i].type_@.len()) + events@[i].repo.name@.len()
                    <= usize::MAX - 64,
    ensures
        r.2 == (events@.len() > 0),
        exists|now: int| #[trigger] spec_ticker_texts(events@, now) == (r.0@, r.1@),
{
    if events.is_empty() {
        let r = (String::new(), String::new(), false);
        proof {
            assert(spec_ticker_texts(events@, 0) == (r.0@, r.1@));
        }
        return r;
    }
    let now = now_secs();
    let mut msg_acc = String::new();
    let mut meta_acc = String::new();
    let n = events.len();
    let mut i: usize = 0;
    while i < n
        invariant
            n == events@.len(),
            i <= n,
            forall|j: int|
                0 <= j < events@.len()
                    ==> (#[trigger] rfc3339_secs(events@[j].created_at@)) is Some,
            forall|j: int|
                0 <= j < events@.len()
                    ==> (#[trigger] events@[j].type_@.len()) + events@[j].repo.name@.len()
                        <= usize::MAX - 64,
            spec_ticker_texts(events@.take(i as int), now as int) == (msg_acc@, meta_acc@),
        decreases n - i,
    {
        let e = &events[i];
        let mut m = e.type_.clone();
        m.append(" in ");
        m.append(e.repo.name.as_str());
        let t = match parse_rfc3339_secs(e.created_at.as_str()) {
            Some(t) => t,
            None => unreached(),
        };
        let days = days_between(now, t);
        let a = days_label(days);
        let m_runes = m.unicode_len();
        let a_runes = a.unicode_len();
        proof {
            reveal_strlit(" in ");
        }
        let w = if m_runes >= a_runes {
            m_runes + 4
        } else {
            a_runes + 4
        };
        let m_seg = pad_right(m.as_str(), w);
        let a_seg = pad_right(a.as_str(), w);
        msg_acc.append(m_seg.as_str());
        meta_acc.append(a_seg.as_str());
        i = i + 1;
        proof {
            assert(events@.take(i as int).drop_last() =~= events@.take(i - 1));
            assert(events@.take(i as int).last() == events@[i - 1]);
            assert(m@ == spec_event_message(events@[i - 1]));
            assert(a@ == spec_event_meta(events@[i - 1], now as int));
            assert(spec_ticker_texts(events@.take(i as int), now as int) == (msg_acc@, meta_acc@));
        }
    }
    proof {
        assert(events@.take(n as int) =~= events@);
        assert(spec_ticker_texts(events@, now as int) == (msg_acc@, meta_acc@));
    }
    (msg_acc, meta_acc, true)
}

/// Reduce the records to the ticker texts where every creation time
/// parses; say so and hand nothing back where one does not.
pub fn try_parse_events_to_ticker(events: &[GitHubEvent]) -> (r: Option<(String, String, bool)>)
    requires
        forall|i: int|
            0 <= i < events@.len()
                ==> (#[trigger] events@[i].type_@.len()) + events@[i].repo.name@.len()
                    <= usize::MAX - 64,
    ensures
        r is Some <==> (forall|i: int|
            0 <= i < events@.len() ==> (#[trigger] rfc3339_secs(events@[i].created_at@)) is Some),
        r matches Some(v) ==> {
            &&& v.2 == (events@.len() > 0)
            &&& exists|now: int| #[trigger] spec_ticker_texts(events@, now) == (v.0@, v.1@)
        },
{
    let n = events.len();
    let mut i: usize = 0;
    while i < n
        invariant
            n == events@.len(),
            i <= n,
            forall|j: int|
                0 <= j < i ==> (#[trigger] rfc3339_secs(events@[j].created_at@)) is Some,
        decreases n - i,
    {
        if parse_rfc3339_secs(events[i].created_at.as_str()).is_none() {
            return None;
        }
        i = i + 1;
    }
    Some(parse_events_to_ticker(events))
}

} // verus!
