use vstd::prelude::*;

use crate::i18n::I18n;
use crate::text::str_eq;

verus! {

// What the pending user's next message turned out to carry.
pub enum ReportContent {
    Voice,
    Text(String),
    Other,
}

// What must be persisted for the report, if anything.  The text of a written
// report gains the trailing newline it is stored with.
#[derive(Debug, PartialEq, Eq)]
pub enum ReportSave {
    Voice,
    Text(String),
    Nothing,
}

// How one inbound message settles a pending report: the reply to send,
// whether the report flow is over for this user, and what to persist.
pub struct ReportOutcome {
    pub reply: String,
    pub resolved: bool,
    pub save: ReportSave,
}

pub fn handle_report(content: ReportContent, i18n: &I18n) -> (r: ReportOutcome)
    ensures
        ({
            match content {
                ReportContent::Voice => r.reply@ == i18n@.report.success_msg && r.resolved
                    && r.save == ReportSave::Voice,
                ReportContent::Text(t) => {
                    if t@ == "/cancel"@ {
                        r.reply@ == i18n@.report.cancel_msg && r.resolved && r.save
                            == ReportSave::Nothing
                    } else {
                        r.reply@ == i18n@.report.success_msg && r.resolved && (r.save matches
                        ReportSave::Text(s) && s@ == t@ + "\n"@)
                    }
                },
                ReportContent::Other => r.reply@ == i18n@.report.error_msg && !r.resolved
                    && r.save == ReportSave::Nothing,
            }
        }),
{
    match content {
        ReportContent::Voice => ReportOutcome {
            reply: i18n.report.success_msg.clone(),
            resolved: true,
            save: ReportSave::Voice,
        },
        ReportContent::Text(t) => {
            if str_eq(t.as_str(), "/cancel") {
                ReportOutcome {
                    reply: i18n.report.cancel_msg.clone(),
                    resolved: true,
                    save: ReportSave::Nothing,
                }
            } else {
                let mut stored = t;
                stored.append("\n");
                ReportOutcome {
                    reply: i18n.report.success_msg.clone(),
                    resolved: true,
                    save: ReportSave::Text(stored),
                }
            }
        },
        ReportContent::Other => ReportOutcome {
            reply: i18n.report.error_msg.clone(),
            resolved: false,
            save: ReportSave::Nothing,
        },
    }
}

// Decimal rendering of the timestamps that name report files.
pub open spec fn dec_digit(d: int) -> char {
    if d == 0 {
        '0'
    } else if d == 1 {
        '1'
    } else if d == 2 {
        '2'
    } else if d == 3 {
        '3'
    } else if d == 4 {
        '4'
    } else if d == 5 {
        '5'
    } else if d == 6 {
        '6'
    } else if d == 7 {
        '7'
    } else if d == 8 {
        '8'
    } else {
        '9'
    }
}

pub open spec fn dec_rep(n: int) -> Seq<char>
    decreases n,
{
    if n < 10 {
        seq![dec_digit(n)]
    } else {
        dec_rep(n / 10).push(dec_digit(n % 10))
    }
}

/// A signed value in decimal, as `to_string` writes it.
pub open spec fn int_rep(n: int) -> Seq<char> {
    if n < 0 {
        seq!['-'] + dec_rep(-n)
    } else {
        dec_rep(n)
    }
}

fn dec_digit_char(d: u64) -> (r: char)
    requires
        d < 10,
    ensures
        r == dec_digit(d as int),
{
    if d == 0 {
        '0'
    } else if d == 1 {
        '1'
    } else if d == 2 {
        '2'
    } else if d == 3 {
        '3'
    } else if d == 4 {
        '4'
    } else if d == 5 {
        '5'
    } else if d == 6 {
        '6'
    } else if d == 7 {
        '7'
    } else if d == 8 {
        '8'
    } else {
        '9'
    }
}

#[verifier::loop_isolation(false)]
pub fn u64_dec_string(n: u64) -> (r: String)
    ensures
        r@ == dec_rep(n as int),
{
    let mut low: Vec<char> = Vec::new();
    let mut m: u64 = n;
    while m >= 10
        invariant
            dec_rep(n as int) == dec_rep(m as int) + low@.reverse(),
        decreases m,
    {
        let ghost prevlow = low@;
        low.push(dec_digit_char(m % 10));
        proof {
            assert(dec_rep(m as int) == dec_rep(m as int / 10).push(dec_digit(m as int % 10)));
            assert(low@.reverse() =~= seq![dec_digit(m as int % 10)] + prevlow.reverse());
            assert(dec_rep(m as int / 10) + low@.reverse() =~= dec_rep(n as int));
        }
        m = m / 10;
    }
    let mut out: Vec<char> = Vec::new();
    out.push(dec_digit_char(m));
    let mut k: usize = low.len();
    proof {
        assert(out@ =~= seq![dec_digit(m as int)] + low@.skip(k as int).reverse());
    }
    while k > 0
        invariant
            k <= low@.len(),
            out@ == seq![dec_digit(m as int)] + low@.skip(k as int).reverse(),
        decreases k,
    {
        k = k - 1;
        out.push(low[k]);
        proof {
            assert(low@.skip(k as int) =~= seq![low@[k as int]] + low@.skip(k as int + 1));
            assert(low@.skip(k as int).reverse() =~= low@.skip(k as int + 1).reverse().push(
                low@[k as int],
            ));
        }
    }
    proof {
        assert(low@.skip(0) =~= low@);
        assert(out@ =~= dec_rep(m as int) + low@.reverse());
    }
    crate::text::chars_to_string(&out)
}

pub fn i64_dec_string(n: i64) -> (r: String)
    ensures
        r@ == int_rep(n as int),
{
    if n >= 0 {
        u64_dec_string(n as u64)
    } else {
        let mag: u64 = if n == i64::MIN {
            9223372036854775808
        } else {
            (-n) as u64
        };
        proof {
            assert(mag as int == -(n as int));
        }
        let digits = u64_dec_string(mag);
        let mut out = String::from_str("-");
        out.append(digits.as_str());
        proof {
            reveal_strlit("-");
            assert(out@ =~= seq!['-'] + dec_rep(-(n as int)));
        }
        out
    }
}

/// Where a report is persisted: under the reports directory, named by the
/// clock reading in milliseconds, with the extension of its kind.
pub open spec fn report_filename_spec(reports_path: Seq<char>, ts_millis: int, voice: bool) -> Seq<
    char,
> {
    reports_path + seq!['/'] + int_rep(ts_millis) + (if voice {
        ".ogg"@
    } else {
        ".txt"@
    })
}

pub fn report_filename(reports_path: &String, timestamp_millis: i64, voice: bool) -> (r: String)
    ensures
        r@ == report_filename_spec(reports_path@, timestamp_millis as int, voice),
{
    let mut out = reports_path.clone();
    out.append("/");
    let num = i64_dec_string(timestamp_millis);
    out.append(num.as_str());
    if voice {
        out.append(".ogg");
    } else {
        out.append(".txt");
    }
    proof {
        reveal_strlit("/");
        assert(out@ =~= report_filename_spec(reports_path@, timestamp_millis as int, voice));
    }
    out
}

/// Relies on `std::time::SystemTime::now` and `SystemTime::duration_since`:
/// the milliseconds since the Unix epoch, or nothing when the clock reads
/// before the epoch or past the range of `i64`. Nothing is promised of a
/// clock reading; the call is total, it never panics.
#[verifier::external_body]
fn now_timestamp_millis() -> (r: Option<i64>) {
    match std::time::SystemTime::now().duration_since(std::time::UNIX_EPOCH) {
        Ok(since_epoch) => i64::try_from(since_epoch.as_millis()).ok(),
        Err(_) => None,
    }
}

/// A fresh file name for a report handed in right now; when the clock cannot
/// be read, the epoch itself stamps the file.
pub fn new_report_filename(reports_path: &String, voice: bool) -> (r: String)
    ensures
        exists|ts: int| r@ == report_filename_spec(reports_path@, ts, voice),
{
    let ts: i64 = match now_timestamp_millis() {
        Some(millis) => millis,
        None => 0,
    };
    let r = report_filename(reports_path, ts, voice);
    proof {
        assert(r@ == report_filename_spec(reports_path@, ts as int, voice));
    }
    r
}

// The users whose next message is owed to the report handler rather than to
// the search engine.  One entry per user, however often the report command
// was issued.
pub struct ConversationStateTracker {
    pending: Vec<u64>,
}

impl View for ConversationStateTracker {
    type V = Set<u64>;

    closed spec fn view(&self) -> Set<u64> {
        self.pending@.to_set()
    }
}

impl ConversationStateTracker {
    pub closed spec fn wf(&self) -> bool {
        self.pending@.no_duplicates()
    }

    pub fn new() -> (r: Self)
        ensures
            r.wf(),
            r@ == Set::<u64>::empty(),
    {
        let r = ConversationStateTracker { pending: Vec::new() };
        proof {
            assert(r.pending@.to_set() =~= Set::<u64>::empty());
        }
        r
    }

    pub fn is_pending(&self, user: u64) -> (r: bool)
        ensures
            r == self@.contains(user),
    {
        let mut i: usize = 0;
        while i < self.pending.len()
            invariant
                i <= self.pending@.len(),
                forall|j: int| 0 <= j < i ==> self.pending@[j] != user,
            decreases self.pending@.len() - i,
        {
            if self.pending[i] == user {
                return true;
            }
            i = i + 1;
        }
        proof {
            assert(!self.pending@.contains(user));
        }
        false
    }

    /// The user's next message is to be treated as a report submission.
    pub fn mark_pending(&mut self, user: u64)
        requires
            old(self).wf(),
        ensures
            final(self).wf(),
            final(self)@ == old(self)@.insert(user),
    {
        let already = self.is_pending(user);
        if already {
            proof {
                assert(self.pending@.to_set() =~= self.pending@.to_set().insert(user));
            }
        } else {
            let ghost prev = self.pending@;
            self.pending.push(user);
            proof {
                assert forall|x: u64| #[trigger]
                    self.pending@.contains(x) <==> prev.contains(x) || x == user by {
                    if self.pending@.contains(x) {
                        let k = choose|k: int|
                            0 <= k < self.pending@.len() && self.pending@[k] == x;
                        if k < prev.len() {
                            assert(prev[k] == x);
                        }
                    }
                    if prev.contains(x) {
                        let k = choose|k: int| 0 <= k < prev.len() && prev[k] == x;
                        assert(self.pending@[k] == x);
                    }
                    if x == user {
                        assert(self.pending@.last() == user);
                    }
                }
                assert(self.pending@.to_set() =~= prev.to_set().insert(user));
                assert forall|i: int, j: int|
                    0 <= i < self.pending@.len() && 0 <= j < self.pending@.len() && i
                        != j implies self.pending@[i] != self.pending@[j] by {
                    if i < prev.len() && j < prev.len() {
                        assert(prev[i] != prev[j]);
                    } else if i < prev.len() {
                        assert(prev[i] == self.pending@[i]);
                        assert(!prev.contains(user));
                    } else if j < prev.len() {
                        assert(prev[j] == self.pending@[j]);
                        assert(!prev.contains(user));
                    }
                }
            }
        }
    }

    /// The user's report flow is over; the next message goes to search again.
    #[verifier::loop_isolation(false)]
    pub fn resolve(&mut self, user: u64)
        requires
            old(self).wf(),
        ensures
            final(self).wf(),
            final(self)@ == old(self)@.remove(user),
    {
        let ghost prev = self.pending@;
        let mut i: usize = 0;
        while i < self.pending.len()
            invariant
                i <= self.pending@.len(),
                self.pending@ == prev,
                forall|j: int| 0 <= j < i ==> self.pending@[j] != user,
            decreases self.pending@.len() - i,
        {
            if self.pending[i] == user {
                self.pending.swap_remove(i);
                proof {
                    assert(self.pending@.len() == prev.len() - 1);
                    assert(prev[i as int] == user);
                    assert(forall|k: int|
                        0 <= k < self.pending@.len() && k != i ==> self.pending@[k] == prev[k]);
                    assert(i < self.pending@.len() ==> self.pending@[i as int] == prev[prev.len()
                        - 1]);
                    assert forall|x: u64| #[trigger]
                        self.pending@.contains(x) <==> prev.contains(x) && x != user by {
                        if self.pending@.contains(x) {
                            let k = choose|k: int|
                                0 <= k < self.pending@.len() && self.pending@[k] == x;
                            if k == i {
                                assert(prev[prev.len() - 1] == x);
                                assert(prev.contains(x));
                                if x == user {
                                    assert(prev[i as int] == prev[prev.len() - 1]);
                                }
                            } else {
                                assert(prev[k] == x);
                            }
                        }
                        if prev.contains(x) && x != user {
                            let k = choose|k: int| 0 <= k < prev.len() && prev[k] == x;
                            if k == i {
                            } else if k == prev.len() - 1 {
                                if i < self.pending@.len() {
                                    assert(self.pending@[i as int] == prev[prev.len() - 1]);
                                } else {
                                    assert(i == prev.len() - 1);
                                }
                            } else {
                                assert(self.pending@[k] == x);
                            }
                        }
                    }
                    assert(self.pending@.to_set() =~= prev.to_set().remove(user));
                    assert forall|a: int, b: int|
                        0 <= a < self.pending@.len() && 0 <= b < self.pending@.len() && a
                            != b implies self.pending@[a] != self.pending@[b] by {
                        if a == i {
                            assert(self.pending@[a] == prev[prev.len() - 1]);
                            assert(self.pending@[b] == prev[b]);
                            assert(prev[prev.len() - 1] != prev[b]);
                        } else if b == i {
                            assert(self.pending@[b] == prev[prev.len() - 1]);
                            assert(self.pending@[a] == prev[a]);
                            assert(prev[prev.len() - 1] != prev[a]);
                        } else {
                            assert(self.pending@[a] == prev[a]);
                            assert(self.pending@[b] == prev[b]);
                        }
                    }
                }
                return ;
            }
            i = i + 1;
        }
        proof {
            assert(!prev.contains(user));
            assert(self.pending@.to_set() =~= prev.to_set().remove(user));
        }
    }
}

} // verus!
