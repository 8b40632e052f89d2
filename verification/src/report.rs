//! The report renderer: a pure function from the finished aggregate and
//! the timing values handed in by the driver to the report's exact bytes.
//! The timestamps arrive already rendered; this module only places them.

use vstd::prelude::*;
use vstd::utf8::encode_utf8;

use crate::aggregate::{Aggregate, AggregateView};
use crate::numeral::{dec_chars, i32_string, int_chars, u64_string};

verus! {

/// The text that `bytes` show once decoded as UTF-8 with every invalid
/// sequence replaced by the replacement character; a function of the
/// bytes alone.
pub uninterp spec fn lossy_text(bytes: Seq<u8>) -> Seq<char>;

/// Relies on `String::from_utf8_lossy`: decodes the bytes as UTF-8,
/// replacing invalid sequences, and depends on the bytes alone.
#[verifier::external_body]
fn bytes_to_lossy_string(bytes: &Vec<u8>) -> (r: String)
    ensures
        r@ == lossy_text(bytes@),
{
    String::from_utf8_lossy(bytes).into_owned()
}

/// The status lines of the report: the exit code when one is present,
/// else the signal when the last segment was killed by one, else nothing
/// (no segment's outcome was ever folded).
pub open spec fn status_chars(agg: AggregateView) -> Seq<char> {
    match agg.exit_code {
        Some(code) => ("\nExit code: ")@ + int_chars(code as int) + ("\n")@,
        None => match agg.signal {
            Some(sig) => ("\nTerminated by signal: ")@ + int_chars(sig as int) + ("\n")@,
            None => Seq::empty(),
        },
    }
}

/// The report's full text: the quoted original expression, the final
/// status, the duration and the two timestamps, then the accumulated
/// stdout and stderr, each lossily decoded as text.
pub open spec fn report_chars(
    expression: Seq<char>,
    agg: AggregateView,
    duration_secs: u64,
    started_at: Seq<char>,
    ended_at: Seq<char>,
) -> Seq<char> {
    ("Run of command: \"")@ + expression + ("\"\n")@ + status_chars(agg) + ("\nDuration: ")@
        + dec_chars(duration_secs as nat) + (" seconds\n")@ + ("Started at: ")@ + started_at
        + ("\n")@ + ("Ended at: ")@ + ended_at + ("\n")@ + ("\nStdout\n------\n")@ + lossy_text(
        agg.stdout,
    ) + ("\n")@ + ("Stderr\n------\n")@ + lossy_text(agg.stderr) + ("\n")@
}

/// Renders the finished aggregate into the report's bytes: exactly the
/// UTF-8 encoding of [`report_chars`].
pub fn render_report(
    expression: &str,
    agg: &Aggregate,
    duration_secs: u64,
    started_at: &str,
    ended_at: &str,
) -> (r: Vec<u8>)
    ensures
        r@ == encode_utf8(
            report_chars(expression@, agg@, duration_secs, started_at@, ended_at@),
        ),
{
    let mut text = String::from_str("Run of command: \"");
    text.append(expression);
    text.append("\"\n");
    match agg.exit_code {
        Some(code) => {
            text.append("\nExit code: ");
            let rendered = i32_string(code);
            text.append(rendered.as_str());
            text.append("\n");
        },
        None => {
            match agg.signal {
                Some(sig) => {
                    text.append("\nTerminated by signal: ");
                    let rendered = i32_string(sig);
                    text.append(rendered.as_str());
                    text.append("\n");
                },
                None => {},
            }
        },
    }
    text.append("\nDuration: ");
    let rendered_secs = u64_string(duration_secs);
    text.append(rendered_secs.as_str());
    text.append(" seconds\n");
    text.append("Started at: ");
    text.append(started_at);
    text.append("\n");
    text.append("Ended at: ");
    text.append(ended_at);
    text.append("\n");
    text.append("\nStdout\n------\n");
    let out_text = bytes_to_lossy_string(&agg.stdout);
    text.append(out_text.as_str());
    text.append("\n");
    text.append("Stderr\n------\n");
    let err_text = bytes_to_lossy_string(&agg.stderr);
    text.append(err_text.as_str());
    text.append("\n");
    proof {
        assert(text@ =~= report_chars(expression@, agg@, duration_secs, started_at@, ended_at@));
    }
    text.as_str().as_bytes_vec()
}

} // verus!
