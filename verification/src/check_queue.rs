//! The outbound-queue check: the queue must be empty, and every in-flight
//! message is rendered into the report when it is not.

use vstd::prelude::*;

use crate::error::Error;
use crate::text::bool_string;
use crate::text::bool_text;
use crate::text::decimal_int;
use crate::text::decimal_nat;
use crate::text::i64_string;
use crate::text::prefix_match_at;
use crate::text::usize_string;
use crate::timefmt::format_queue_time;
use crate::timefmt::in_timestamp_range;
use crate::timefmt::queue_time_text;

verus! {

/// One queued message as the management API reports it.
pub struct QueueItem {
    pub queue_name: String,
    pub queue_id: String,
    pub arrival_time: i64,
    pub message_size: usize,
    pub forced_expire: bool,
    pub sender: String,
    pub recipients: Vec<String>,
}

/// The separator between delivery attempts inside one recipient entry.
pub open spec fn two_spaces() -> Seq<char> {
    "  "@
}

/// The marker after which a peer's reply is quoted in a recipient entry.
pub open spec fn said_sep() -> Seq<char> {
    "said: "@
}

/// The pieces of `s` split on `sep`, leftmost match first, as `str::split`
/// yields them once `cur` (text already scanned) is put before them.
pub open spec fn split_go(s: Seq<char>, sep: Seq<char>, cur: Seq<char>) -> Seq<Seq<char>>
    decreases s.len(),
        when sep.len() > 0
{
    if s.len() < sep.len() {
        seq![cur + s]
    } else if s.subrange(0, sep.len() as int) == sep {
        seq![cur] + split_go(s.skip(sep.len() as int), sep, Seq::empty())
    } else {
        split_go(s.skip(1), sep, cur.push(s[0]))
    }
}

/// The pieces of `s` split after each match of `sep`, the match kept at
/// the end of its piece, as `str::split_inclusive` yields them.
pub open spec fn split_inclusive_go(s: Seq<char>, sep: Seq<char>, cur: Seq<char>) -> Seq<Seq<char>>
    decreases s.len(),
        when sep.len() > 0
{
    if s.len() < sep.len() {
        if cur.len() + s.len() == 0 {
            Seq::empty()
        } else {
            seq![cur + s]
        }
    } else if s.subrange(0, sep.len() as int) == sep {
        seq![cur + sep] + split_inclusive_go(s.skip(sep.len() as int), sep, Seq::empty())
    } else {
        split_inclusive_go(s.skip(1), sep, cur.push(s[0]))
    }
}

/// One report line for one piece of a recipient entry.
pub open spec fn piece_line(p: Seq<char>) -> Seq<char> {
    "├────"@ + p + "\n"@
}

/// The report lines of a sequence of pieces.
pub open spec fn pieces_lines(ps: Seq<Seq<char>>) -> Seq<char>
    decreases ps.len(),
{
    if ps.len() == 0 {
        Seq::empty()
    } else {
        piece_line(ps[0]) + pieces_lines(ps.drop_first())
    }
}

/// The report lines of one delivery attempt: its text split after each
/// `said: ` marker, one line per piece.
pub open spec fn part_text(p: Seq<char>) -> Seq<char> {
    pieces_lines(split_inclusive_go(p, said_sep(), Seq::empty()))
}

/// The report lines of a sequence of delivery attempts.
pub open spec fn parts_text(ps: Seq<Seq<char>>) -> Seq<char>
    decreases ps.len(),
{
    if ps.len() == 0 {
        Seq::empty()
    } else {
        part_text(ps[0]) + parts_text(ps.drop_first())
    }
}

/// The report lines of one recipient entry: the entry split on double
/// spaces into delivery attempts, each rendered in turn.
pub open spec fn recipient_text(r: Seq<char>) -> Seq<char> {
    parts_text(split_go(r, two_spaces(), Seq::empty()))
}

/// The report lines of all recipient entries, in order.
pub open spec fn recipients_text(rs: Seq<String>) -> Seq<char>
    decreases rs.len(),
{
    if rs.len() == 0 {
        Seq::empty()
    } else {
        recipients_text(rs.drop_last()) + recipient_text(rs.last()@)
    }
}

/// How an arrival timestamp is shown: as a formatted date where chrono can
/// represent it, as the bare number of seconds where it cannot.
pub open spec fn arrival_text(secs: i64) -> Seq<char> {
    if in_timestamp_range(secs) {
        queue_time_text(secs)
    } else {
        decimal_int(secs as int)
    }
}

/// How one queued message is shown in the report.
pub open spec fn queue_item_text(q: QueueItem) -> Seq<char> {
    "ID: "@ + q.queue_id@ + "\n├─Sender: "@ + q.sender@ + "\n├─Arrival time: "@ + arrival_text(
        q.arrival_time,
    ) + "\n├─Message size: "@ + decimal_nat(q.message_size as nat) + "\n├─Queue type: "@
        + q.queue_name@ + "\n├─Forced expire? "@ + bool_text(q.forced_expire) + "\n├─Message:\n"@
        + recipients_text(q.recipients@)
}

/// Renders the lines of the pieces of `s` split after each `said: `
/// marker, `cur` being the text already scanned of the current piece.
fn said_lines(s: &str, cur: String) -> (out: String)
    ensures
        out@ == pieces_lines(split_inclusive_go(s@, said_sep(), cur@)),
    decreases s@.len(),
{
    proof {
        reveal_strlit("said: ");
    }
    let n = s.unicode_len();
    let m = "said: ".unicode_len();
    assert(m == said_sep().len());
    if n < m {
        if cur.as_str().is_empty() && n == 0 {
            String::new()
        } else {
            let mut out = String::from_str("├────");
            out.append(cur.as_str());
            out.append(s);
            out.append("\n");
            proof {
                let ps = split_inclusive_go(s@, said_sep(), cur@);
                assert(ps =~= seq![cur@ + s@]);
                assert(ps.drop_first() =~= Seq::<Seq<char>>::empty());
                assert(pieces_lines(Seq::<Seq<char>>::empty()) == Seq::<char>::empty());
                assert(out@ =~= pieces_lines(ps));
            }
            out
        }
    } else if prefix_match_at(s, "said: ", 0) {
        let rest = s.substring_char(m, n);
        let mut out = String::from_str("├────");
        out.append(cur.as_str());
        out.append("said: ");
        out.append("\n");
        let tail = said_lines(rest, String::new());
        out.append(tail.as_str());
        proof {
            let ps = split_inclusive_go(s@, said_sep(), cur@);
            assert(s@.subrange(0, said_sep().len() as int) == said_sep());
            assert(rest@ =~= s@.skip(said_sep().len() as int));
            let tail_ps = split_inclusive_go(rest@, said_sep(), Seq::empty());
            assert(ps =~= seq![cur@ + said_sep()] + tail_ps);
            assert(ps.drop_first() =~= tail_ps);
            assert(ps[0] == cur@ + said_sep());
            assert(out@ =~= pieces_lines(ps));
        }
        out
    } else {
        let ghost cur0 = cur@;
        let first = s.substring_char(0, 1);
        let rest = s.substring_char(1, n);
        let mut cur2 = cur;
        cur2.append(first);
        proof {
            assert(cur2@ =~= cur0.push(s@[0]));
            assert(rest@ =~= s@.skip(1));
            assert(s@.subrange(0, said_sep().len() as int) != said_sep());
        }
        said_lines(rest, cur2)
    }
}

/// Renders the lines of the delivery attempts of `s` split on double
/// spaces, `cur` being the text already scanned of the current attempt.
fn recipient_go(s: &str, cur: String) -> (out: String)
    ensures
        out@ == parts_text(split_go(s@, two_spaces(), cur@)),
    decreases s@.len(),
{
    proof {
        reveal_strlit("  ");
    }
    let n = s.unicode_len();
    let m = "  ".unicode_len();
    assert(m == two_spaces().len());
    if n < m {
        let part = cur.concat(s);
        let out = said_lines(part.as_str(), String::new());
        proof {
            let ps = split_go(s@, two_spaces(), cur@);
            assert(ps =~= seq![cur@ + s@]);
            assert(ps.drop_first() =~= Seq::<Seq<char>>::empty());
            assert(parts_text(Seq::<Seq<char>>::empty()) == Seq::<char>::empty());
            assert(out@ =~= parts_text(ps));
        }
        out
    } else if prefix_match_at(s, "  ", 0) {
        let rest = s.substring_char(m, n);
        let mut out = said_lines(cur.as_str(), String::new());
        let tail = recipient_go(rest, String::new());
        out.append(tail.as_str());
        proof {
            let ps = split_go(s@, two_spaces(), cur@);
            assert(s@.subrange(0, two_spaces().len() as int) == two_spaces());
            assert(rest@ =~= s@.skip(two_spaces().len() as int));
            let tail_ps = split_go(rest@, two_spaces(), Seq::empty());
            assert(ps =~= seq![cur@] + tail_ps);
            assert(ps.drop_first() =~= tail_ps);
            assert(ps[0] == cur@);
            assert(out@ =~= parts_text(ps));
        }
        out
    } else {
        let ghost cur0 = cur@;
        let first = s.substring_char(0, 1);
        let rest = s.substring_char(1, n);
        let mut cur2 = cur;
        cur2.append(first);
        proof {
            assert(cur2@ =~= cur0.push(s@[0]));
            assert(rest@ =~= s@.skip(1));
            assert(s@.subrange(0, two_spaces().len() as int) != two_spaces());
        }
        recipient_go(rest, cur2)
    }
}

/// Renders the report lines of one recipient entry.
fn recipient_lines(r: &str) -> (out: String)
    ensures
        out@ == recipient_text(r@),
{
    recipient_go(r, String::new())
}

impl QueueItem {
    /// Renders the message as it is shown in the queue report.
    pub fn render(&self) -> (r: String)
        ensures
            r@ == queue_item_text(*self),
    {
        let arrival = match format_queue_time(self.arrival_time) {
            Some(t) => t,
            None => i64_string(self.arrival_time),
        };
        assert(arrival@ == arrival_text(self.arrival_time));
        let mut recips = String::new();
        let mut i: usize = 0;
        while i < self.recipients.len()
            invariant
                i <= self.recipients@.len(),
                recips@ == recipients_text(self.recipients@.take(i as int)),
            decreases self.recipients@.len() - i,
        {
            let line = recipient_lines(self.recipients[i].as_str());
            recips.append(line.as_str());
            proof {
                assert(self.recipients@.take(i + 1).drop_last() =~= self.recipients@.take(i as int));
                assert(self.recipients@.take(i + 1).last() == self.recipients@[i as int]);
            }
            i += 1;
        }
        proof {
            assert(self.recipients@.take(self.recipients@.len() as int) =~= self.recipients@);
        }
        let mut out = String::from_str("ID: ");
        out.append(self.queue_id.as_str());
        out.append("\n├─Sender: ");
        out.append(self.sender.as_str());
        out.append("\n├─Arrival time: ");
        out.append(arrival.as_str());
        out.append("\n├─Message size: ");
        out.append(usize_string(self.message_size).as_str());
        out.append("\n├─Queue type: ");
        out.append(self.queue_name.as_str());
        out.append("\n├─Forced expire? ");
        out.append(bool_string(self.forced_expire).as_str());
        out.append("\n├─Message:\n");
        out.append(recips.as_str());
        assert(out@ =~= queue_item_text(*self));
        out
    }
}

/// The rendering of every queued message, each followed by a newline.
pub open spec fn items_text(items: Seq<QueueItem>) -> Seq<char>
    decreases items.len(),
{
    if items.len() == 0 {
        Seq::empty()
    } else {
        items_text(items.drop_last()) + queue_item_text(items.last()) + "\n"@
    }
}

/// The report when the queue is not empty.
pub open spec fn queue_report(items: Seq<QueueItem>) -> Seq<char> {
    "Outbound message queue is not empty:\n\n"@ + items_text(items)
}

/// Checks the outbound queue. Succeeds exactly when it is empty;
/// otherwise fails with every queued message rendered into the report.
pub fn check_queue_items(queue_items: Vec<QueueItem>) -> (r: Result<(), Error>)
    ensures
        (r is Ok) <==> queue_items@.len() == 0,
        r matches Err(e) ==> e.message@ == queue_report(queue_items@),
{
    if queue_items.len() == 0 {
        return Ok(());
    }
    let mut message = String::from_str("Outbound message queue is not empty:\n\n");
    let mut i: usize = 0;
    while i < queue_items.len()
        invariant
            i <= queue_items@.len(),
            message@ == "Outbound message queue is not empty:\n\n"@ + items_text(
                queue_items@.take(i as int),
            ),
        decreases queue_items@.len() - i,
    {
        let rendered = queue_items[i].render();
        message.append(rendered.as_str());
        message.append("\n");
        proof {
            assert(queue_items@.take(i + 1).drop_last() =~= queue_items@.take(i as int));
            assert(queue_items@.take(i + 1).last() == queue_items@[i as int]);
            assert(message@ =~= "Outbound message queue is not empty:\n\n"@ + items_text(
                queue_items@.take(i + 1),
            ));
        }
        i += 1;
    }
    proof {
        assert(queue_items@.take(queue_items@.len() as int) =~= queue_items@);
    }
    Err(Error::from(message))
}

/// The endpoint the queue check reads, under the given base URL.
pub fn queue_url(base_url: &str) -> (r: String)
    ensures
        r@ == base_url@ + "/api/v1/get/mailq/all"@,
{
    let mut url = String::from_str(base_url);
    url.append("/api/v1/get/mailq/all");
    url
}

} // verus!
