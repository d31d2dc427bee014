//! The rejection-log check: no recent log line may record a delivery
//! refused for lacking transport encryption.

use std::io::Write;

use vstd::prelude::*;

use crate::error::Error;
use crate::text::contains_pat;
use crate::text::decimal_nat;
use crate::text::i64_string;
use crate::text::parse_i64_or_zero;
use crate::text::str_contains;
use crate::text::usize_string;
use crate::timefmt::in_timestamp_range;
use crate::timefmt::now_secs;
use crate::timefmt::utc_time_string;

verus! {

/// One log line as the management API reports it.
pub struct LogMessage {
    pub message: String,
    pub time: String,
}

/// The text that marks a delivery refused for lacking encryption.
pub open spec fn ssl_needle() -> Seq<char> {
    "550 5.7.1 Session encryption is required"@
}

/// The log line records such a refusal.
pub open spec fn is_rejection(l: LogMessage) -> bool {
    contains_pat(l.message@, ssl_needle())
}

/// The messages of the log lines that record a refusal, in order.
pub open spec fn rejected_msgs(ls: Seq<LogMessage>) -> Seq<Seq<char>>
    decreases ls.len(),
{
    if ls.len() == 0 {
        Seq::empty()
    } else {
        rejected_msgs(ls.drop_last()) + (if is_rejection(ls.last()) {
            seq![ls.last().message@]
        } else {
            Seq::<Seq<char>>::empty()
        })
    }
}

/// The pieces joined with a newline between each pair, as `join` leaves
/// them.
pub open spec fn join_nl(ms: Seq<Seq<char>>) -> Seq<char>
    decreases ms.len(),
{
    if ms.len() == 0 {
        Seq::empty()
    } else if ms.len() == 1 {
        ms[0]
    } else {
        join_nl(ms.drop_last()) + "\n"@ + ms.last()
    }
}

/// There are no rejected messages exactly when no log line records a
/// refusal.
proof fn lemma_rejected_empty(ls: Seq<LogMessage>)
    ensures
        (rejected_msgs(ls).len() == 0) <==> (forall|i: int|
            0 <= i < ls.len() ==> !is_rejection(#[trigger] ls[i])),
    decreases ls.len(),
{
    if ls.len() > 0 {
        let rest = ls.drop_last();
        lemma_rejected_empty(rest);
        if is_rejection(ls.last()) {
            assert(is_rejection(ls[ls.len() - 1]));
        } else {
            if rejected_msgs(rest).len() == 0 {
                assert forall|i: int| 0 <= i < ls.len() implies !is_rejection(
                    #[trigger] ls[i],
                ) by {
                    if i < ls.len() - 1 {
                        assert(ls[i] == rest[i]);
                    }
                }
            } else {
                let k = choose|i: int| 0 <= i < rest.len() && is_rejection(#[trigger] rest[i]);
                assert(is_rejection(ls[k]));
            }
        }
    }
}

/// Relies on std::io::stdout: writes one line of debug text to standard
/// output.
#[verifier::external_body]
fn print_line(s: &str) {
    let _ = writeln!(std::io::stdout(), "{}", s);
}

/// Scans the retrieved log lines for refusals recorded for lacking
/// transport encryption. Succeeds exactly when no line records one;
/// otherwise fails with the offending messages listed line by line.
/// When `verbose` is set, a summary of the newest log line is printed
/// first.
pub fn check_rejections(log_messages: Vec<LogMessage>, verbose: bool) -> (r: Result<(), Error>)
    ensures
        (r is Ok) <==> (forall|i: int|
            0 <= i < log_messages@.len() ==> !is_rejection(#[trigger] log_messages@[i])),
        r matches Err(e) ==> e.message@ == "SSL rejections were found:\n"@ + join_nl(
            rejected_msgs(log_messages@),
        ),
{
    if verbose {
        if log_messages.len() > 0 {
            let last = &log_messages[log_messages.len() - 1];
            let t = parse_i64_or_zero(last.time.as_str());
            let eff: i64 = if t >= -8334601228800 && t <= 8210266876799 {
                t
            } else {
                0
            };
            assert(in_timestamp_range(eff));
            let now = now_secs();
            let delta: i64 = now - eff;
            let minutes: i64 = if delta >= 0 {
                (((delta as u64) / 60) as i64)
            } else {
                let mag = ((-delta) as u64) / 60;
                (-(mag as i64))
            };
            let mut line1 = String::from_str("DEBUG: check_postfix_rejections: Last message: \"");
            line1.append(last.message.as_str());
            line1.append("\"");
            print_line(line1.as_str());
            let mut line2 = String::from_str(
                "DEBUG: check_postfix_rejections: Last message time: ",
            );
            line2.append(utc_time_string(eff).as_str());
            line2.append(" (");
            line2.append(i64_string(minutes).as_str());
            line2.append(" minute(s) ago)");
            print_line(line2.as_str());
        } else {
            print_line("DEBUG: check_postfix_rejections: log is empty.");
        }
    }
    let mut rejected: Vec<String> = Vec::new();
    let mut i: usize = 0;
    while i < log_messages.len()
        invariant
            i <= log_messages@.len(),
            rejected@.map_values(|s: String| s@) == rejected_msgs(log_messages@.take(i as int)),
        decreases log_messages@.len() - i,
    {
        if str_contains(
            log_messages[i].message.as_str(),
            "550 5.7.1 Session encryption is required",
        ) {
            let msg = log_messages[i].message.clone();
            rejected.push(msg);
        }
        proof {
            assert(log_messages@.take(i + 1).drop_last() =~= log_messages@.take(i as int));
            assert(log_messages@.take(i + 1).last() == log_messages@[i as int]);
            assert(rejected@.map_values(|s: String| s@) =~= rejected_msgs(
                log_messages@.take(i + 1),
            ));
        }
        i += 1;
    }
    proof {
        assert(log_messages@.take(log_messages@.len() as int) =~= log_messages@);
        lemma_rejected_empty(log_messages@);
    }
    if rejected.len() == 0 {
        assert(rejected_msgs(log_messages@).len() == 0);
        Ok(())
    } else {
        let ghost ms = rejected_msgs(log_messages@);
        let mut joined = String::new();
        let mut j: usize = 0;
        while j < rejected.len()
            invariant
                j <= rejected@.len(),
                rejected@.map_values(|s: String| s@) == ms,
                joined@ == join_nl(ms.take(j as int)),
            decreases rejected@.len() - j,
        {
            if j > 0 {
                joined.append("\n");
            }
            joined.append(rejected[j].as_str());
            proof {
                assert(ms.take(j + 1).drop_last() =~= ms.take(j as int));
                assert(ms.take(j + 1).last() == ms[j as int]);
                assert(ms[j as int] == rejected@[j as int]@);
                assert(joined@ =~= join_nl(ms.take(j + 1)));
            }
            j += 1;
        }
        proof {
            assert(ms.take(ms.len() as int) =~= ms);
        }
        let mut message = String::from_str("SSL rejections were found:\n");
        message.append(joined.as_str());
        assert(message@ =~= "SSL rejections were found:\n"@ + join_nl(
            rejected_msgs(log_messages@),
        ));
        Err(Error::from(message))
    }
}

/// The endpoint the rejection check reads, under the given base URL, for
/// the given number of most recent log lines.
pub fn postfix_logs_url(base_url: &str, messages_to_retrieve: usize) -> (r: String)
    ensures
        r@ == base_url@ + "/api/v1/get/logs/postfix/"@ + decimal_nat(messages_to_retrieve as nat),
{
    let mut url = String::from_str(base_url);
    url.append("/api/v1/get/logs/postfix/");
    url.append(usize_string(messages_to_retrieve).as_str());
    assert(url@ =~= base_url@ + "/api/v1/get/logs/postfix/"@ + decimal_nat(
        messages_to_retrieve as nat,
    ));
    url
}

} // verus!
