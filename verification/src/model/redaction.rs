//! Keeping paths, secrets, payloads and system text out of error details.
use vstd::prelude::*;

use crate::model::config::PayloadEncoding;
use crate::model::data::{preview_text, PayloadSummary};
use crate::model::error::{field_views, DetailValue, DetailView};
use crate::util::decimal::{padded_decimal, push_padded_decimal};
use crate::util::text::{ascii_lower, contains_text, str_contains, string_push, to_ascii_lowercase};

verus! {

/// A separator of path segments.
pub open spec fn is_path_sep(c: char) -> bool {
    c == '/' || c == '\\'
}

/// What follows the last path separator of `s` (all of `s` when it has none).
pub open spec fn last_segment(s: Seq<char>) -> Seq<char>
    decreases s.len(),
{
    if s.len() == 0 {
        Seq::empty()
    } else if is_path_sep(s.last()) {
        Seq::empty()
    } else {
        last_segment(s.drop_last()).push(s.last())
    }
}

/// The kind of system failure a message names.
pub open spec fn os_error_kind(message: Seq<char>) -> Seq<char> {
    let l = ascii_lower(message);
    if contains_text(l, "permission"@) || contains_text(l, "access"@) {
        "permission_denied"@
    } else if contains_text(l, "not found"@) {
        "not_found"@
    } else {
        "other"@
    }
}

fn decimal_text(n: usize) -> (s: String)
    ensures
        s@ == padded_decimal(n as nat, 1),
{
    let mut s = String::new();
    push_padded_decimal(&mut s, n as u64, 1);
    s
}

/// Replaces sensitive values by what may be shown of them.
#[derive(Debug, Clone, Copy)]
pub struct Redactor;

impl Redactor {
    /// Only the file name of a local path.
    pub fn local_path(&self, path: &str) -> (d: DetailValue)
        ensures
            d@ == DetailView::Text(last_segment(path@)),
    {
        let n = vstd::string::StrSliceExecFns::unicode_len(path);
        let mut segment = String::new();
        let mut i: usize = 0;
        while i < n
            invariant
                n == path@.len(),
                i <= n,
                segment@ == last_segment(path@.take(i as int)),
            decreases n - i,
        {
            let c = vstd::string::StrSliceExecFns::get_char(path, i);
            assert(path@.take(i + 1).drop_last() =~= path@.take(i as int));
            if c == '/' || c == '\\' {
                segment = String::new();
            } else {
                string_push(&mut segment, c);
            }
            i = i + 1;
        }
        assert(path@.take(n as int) =~= path@);
        DetailValue::Text(segment)
    }

    /// The name of an environment variable, with its value withheld.
    pub fn env_value(&self, name: &str, _value: &str) -> (d: DetailValue)
        ensures
            d@ == DetailView::Fields(seq![("name"@, name@), ("value"@, "<redacted>"@)]),
    {
        let fields = vec![("name".to_owned(), name.to_owned()), ("value".to_owned(), "<redacted>".to_owned())];
        assert(field_views(fields@) =~= seq![("name"@, name@), ("value"@, "<redacted>"@)]);
        DetailValue::Fields(fields)
    }

    /// A bounded text preview of a payload, with its counts.
    pub fn payload_preview(&self, bytes: &[u8], max_preview_bytes: usize) -> (d: DetailValue)
        ensures
            ({
                let shown = if bytes@.len() < max_preview_bytes {
                    bytes@.len() as int
                } else {
                    max_preview_bytes as int
                };
                d@ == DetailView::Fields(
                    seq![
                        ("preview"@, preview_text(bytes@.take(shown), PayloadEncoding::Text)),
                        ("payload_bytes"@, padded_decimal(bytes@.len(), 1)),
                        ("omitted_bytes"@, padded_decimal((bytes@.len() - shown) as nat, 1)),
                        ("truncated"@, if bytes@.len() > shown { "true"@ } else { "false"@ }),
                    ],
                )
            }),
    {
        let summary = PayloadSummary::from_bytes(bytes, PayloadEncoding::Text, max_preview_bytes, false);
        let truncated = if summary.truncated {
            "true".to_owned()
        } else {
            "false".to_owned()
        };
        let fields = vec![
            ("preview".to_owned(), summary.preview),
            ("payload_bytes".to_owned(), decimal_text(summary.payload_bytes)),
            ("omitted_bytes".to_owned(), decimal_text(summary.omitted_bytes)),
            ("truncated".to_owned(), truncated),
        ];
        proof {
            reveal_strlit("true");
            reveal_strlit("false");
            let shown = if bytes@.len() < max_preview_bytes {
                bytes@.len() as int
            } else {
                max_preview_bytes as int
            };
            assert(field_views(fields@) =~= seq![
                ("preview"@, preview_text(bytes@.take(shown), PayloadEncoding::Text)),
                ("payload_bytes"@, padded_decimal(bytes@.len(), 1)),
                ("omitted_bytes"@, padded_decimal((bytes@.len() - shown) as nat, 1)),
                ("truncated"@, if bytes@.len() > shown { "true"@ } else { "false"@ }),
            ]);
        }
        DetailValue::Fields(fields)
    }

    /// The kind of a system failure, with its text withheld.
    pub fn os_error(&self, message: &str) -> (d: DetailValue)
        ensures
            d@ == DetailView::Fields(seq![("io_kind"@, os_error_kind(message@)), ("message"@, "<redacted>"@)]),
    {
        let lowered = to_ascii_lowercase(message);
        let l = lowered.as_str();
        let kind = if str_contains(l, "permission") || str_contains(l, "access") {
            "permission_denied"
        } else if str_contains(l, "not found") {
            "not_found"
        } else {
            "other"
        };
        let fields = vec![("io_kind".to_owned(), kind.to_owned()), ("message".to_owned(), "<redacted>".to_owned())];
        assert(field_views(fields@) =~= seq![("io_kind"@, os_error_kind(message@)), ("message"@, "<redacted>"@)]);
        DetailValue::Fields(fields)
    }

    /// A stack trace is never shown.
    pub fn stack_trace(&self, _stack: &str) -> (d: DetailValue)
        ensures
            d@ == DetailView::Text("<redacted>"@),
    {
        DetailValue::Text("<redacted>".to_owned())
    }
}

} // verus!
