//! The mailbox-quota check: report every mailbox whose utilization
//! percentage exceeds the caller's threshold.

use vstd::prelude::*;

use crate::error::Error;
use crate::text::decimal_nat;
use crate::text::u16_string;

verus! {

/// One mailbox as the management API reports it: the account name and how
/// much of its allotted storage it has consumed, as a percentage.
pub struct Mailbox {
    pub username: String,
    pub percent_in_use: u16,
}

/// How a mailbox is shown in a report.
pub open spec fn mailbox_text(m: Mailbox) -> Seq<char> {
    "Mailbox "@ + m.username@ + " is "@ + decimal_nat(m.percent_in_use as nat) + "% utilized"@
}

impl Mailbox {
    /// Renders the mailbox as the report shows it.
    pub fn render(&self) -> (r: String)
        ensures
            r@ == mailbox_text(*self),
    {
        let mut s = String::from_str("Mailbox ");
        s.append(self.username.as_str());
        s.append(" is ");
        s.append(u16_string(self.percent_in_use).as_str());
        s.append("% utilized");
        assert(s@ =~= mailbox_text(*self));
        s
    }
}

/// The line reported for one mailbox above the threshold.
pub open spec fn quota_line(m: Mailbox, threshold: u16) -> Seq<char> {
    mailbox_text(m) + ", which is above the "@ + decimal_nat(threshold as nat) + "% threshold"@
}

/// The whole report: the line of each mailbox above the threshold, in
/// order, with nothing between the lines.
pub open spec fn quota_report(mailboxes: Seq<Mailbox>, threshold: u16) -> Seq<char>
    decreases mailboxes.len(),
{
    if mailboxes.len() == 0 {
        Seq::empty()
    } else {
        quota_report(mailboxes.drop_last(), threshold) + (if mailboxes.last().percent_in_use
            > threshold {
            quota_line(mailboxes.last(), threshold)
        } else {
            Seq::<char>::empty()
        })
    }
}

/// The report is empty exactly when no mailbox is above the threshold.
proof fn lemma_quota_report_empty(mailboxes: Seq<Mailbox>, threshold: u16)
    ensures
        (quota_report(mailboxes, threshold).len() == 0) <==> (forall|i: int|
            0 <= i < mailboxes.len() ==> (#[trigger] mailboxes[i]).percent_in_use <= threshold),
    decreases mailboxes.len(),
{
    reveal_strlit("Mailbox ");
    if mailboxes.len() > 0 {
        let rest = mailboxes.drop_last();
        lemma_quota_report_empty(rest, threshold);
        if mailboxes.last().percent_in_use > threshold {
            assert(quota_line(mailboxes.last(), threshold).len() > 0);
            assert(mailboxes[mailboxes.len() - 1].percent_in_use > threshold);
        } else {
            if quota_report(rest, threshold).len() == 0 {
                assert forall|i: int|
                    0 <= i < mailboxes.len() implies (
                #[trigger] mailboxes[i]).percent_in_use <= threshold by {
                    if i < mailboxes.len() - 1 {
                        assert(mailboxes[i] == rest[i]);
                    }
                }
            } else {
                let k = choose|i: int|
                    0 <= i < rest.len() && (#[trigger] rest[i]).percent_in_use > threshold;
                assert(mailboxes[k].percent_in_use > threshold);
            }
        }
    }
}

/// Checks every mailbox against the threshold. Succeeds exactly when no
/// mailbox is above it; otherwise fails with one line per violating
/// mailbox, in the order the mailboxes were given.
pub fn check_quota_items(mailboxes: Vec<Mailbox>, threshold: u16) -> (r: Result<(), Error>)
    ensures
        (r is Ok) <==> (forall|i: int|
            0 <= i < mailboxes@.len() ==> (#[trigger] mailboxes@[i]).percent_in_use <= threshold),
        r matches Err(e) ==> e.message@ == quota_report(mailboxes@, threshold),
{
    let mut error_message = String::new();
    let mut i: usize = 0;
    while i < mailboxes.len()
        invariant
            i <= mailboxes@.len(),
            error_message@ == quota_report(mailboxes@.take(i as int), threshold),
        decreases mailboxes@.len() - i,
    {
        let mailbox = &mailboxes[i];
        if mailbox.percent_in_use > threshold {
            let mut message = mailbox.render();
            message.append(", which is above the ");
            message.append(u16_string(threshold).as_str());
            message.append("% threshold");
            assert(message@ =~= quota_line(mailboxes@[i as int], threshold));
            error_message.append(message.as_str());
        }
        proof {
            assert(mailboxes@.take(i + 1).drop_last() =~= mailboxes@.take(i as int));
            assert(mailboxes@.take(i + 1).last() == mailboxes@[i as int]);
            assert(error_message@ =~= quota_report(mailboxes@.take(i + 1), threshold));
        }
        i += 1;
    }
    proof {
        assert(mailboxes@.take(mailboxes@.len() as int) =~= mailboxes@);
        lemma_quota_report_empty(mailboxes@, threshold);
    }
    if error_message.as_str().is_empty() {
        Ok(())
    } else {
        Err(Error { message: error_message })
    }
}

/// The endpoint the quota check reads, under the given base URL.
pub fn quota_url(base_url: &str) -> (r: String)
    ensures
        r@ == base_url@ + "/api/v1/get/mailbox/all"@,
{
    let mut url = String::from_str(base_url);
    url.append("/api/v1/get/mailbox/all");
    url
}

} // verus!
