//! The error taxonomy of the pipeline, and the text under which each error
//! is reported to the callback URL.

use vstd::prelude::*;
use crate::bytes::{ascii_seq, push_ascii, push_bytes};

verus! {

/// Why a job failed.
#[derive(Debug)]
pub enum RenderError {
    /// The document specification was rejected.
    InvalidSpec,
    /// A network or HTTP error while fetching the template or an asset;
    /// the payload is the transport's description.
    FetchFailed(Vec<u8>),
    /// A redirect without a usable `Location`, or a redirect loop.
    RedirectInvalid,
    /// A body exceeded the configured size limit.
    BodyTooLarge,
    /// The fetched template was not valid UTF-8.
    TemplateNotUtf8,
    /// The template expansion failed; the payload is the expander's message.
    ExpansionFailed(Vec<u8>),
    /// Workspace creation, a file write, or archiving failed.
    FilesystemFailed(Vec<u8>),
    /// The typesetter exited non-zero; the payload is its captured stdout,
    /// kept verbatim.
    TypesetFailed(Vec<u8>),
    /// The object store put or presign failed.
    UploadFailed(Vec<u8>),
    /// The callback POST itself failed; logged, never propagated.
    CallbackFailed,
}

/// The mathematical value of an error: the same taxonomy over byte
/// sequences.
pub enum ErrorView {
    InvalidSpec,
    FetchFailed(Seq<u8>),
    RedirectInvalid,
    BodyTooLarge,
    TemplateNotUtf8,
    ExpansionFailed(Seq<u8>),
    FilesystemFailed(Seq<u8>),
    TypesetFailed(Seq<u8>),
    UploadFailed(Seq<u8>),
    CallbackFailed,
}

impl View for RenderError {
    type V = ErrorView;

    open spec fn view(&self) -> ErrorView {
        match self {
            RenderError::InvalidSpec => ErrorView::InvalidSpec,
            RenderError::FetchFailed(d) => ErrorView::FetchFailed(d@),
            RenderError::RedirectInvalid => ErrorView::RedirectInvalid,
            RenderError::BodyTooLarge => ErrorView::BodyTooLarge,
            RenderError::TemplateNotUtf8 => ErrorView::TemplateNotUtf8,
            RenderError::ExpansionFailed(d) => ErrorView::ExpansionFailed(d@),
            RenderError::FilesystemFailed(d) => ErrorView::FilesystemFailed(d@),
            RenderError::TypesetFailed(out) => ErrorView::TypesetFailed(out@),
            RenderError::UploadFailed(d) => ErrorView::UploadFailed(d@),
            RenderError::CallbackFailed => ErrorView::CallbackFailed,
        }
    }
}

/// The human-readable text of an error, as posted to the callback URL.
/// The text of a typesetter failure carries the captured stdout verbatim.
pub open spec fn error_text_spec(e: ErrorView) -> Seq<u8> {
    match e {
        ErrorView::InvalidSpec => ascii_seq("invalid document spec"@),
        ErrorView::FetchFailed(d) => ascii_seq("fetch failed: "@) + d,
        ErrorView::RedirectInvalid => ascii_seq("redirect without usable Location"@),
        ErrorView::BodyTooLarge => ascii_seq("body exceeds the asset size limit"@),
        ErrorView::TemplateNotUtf8 => ascii_seq("template is not valid UTF-8"@),
        ErrorView::ExpansionFailed(d) => ascii_seq("template expansion failed: "@) + d,
        ErrorView::FilesystemFailed(d) => ascii_seq("filesystem error: "@) + d,
        ErrorView::TypesetFailed(out) => ascii_seq("typesetting failed: "@) + out,
        ErrorView::UploadFailed(d) => ascii_seq("upload failed: "@) + d,
        ErrorView::CallbackFailed => ascii_seq("callback failed"@),
    }
}

/// Whether a byte string is the reported text of some expansion failure.
/// The expansion engine's message is not a function of the job's inputs,
/// so the pipeline's contracts can only promise a text of this shape.
pub open spec fn is_expansion_failure_text(t: Seq<u8>) -> bool {
    exists|m: Seq<u8>| t == #[trigger] error_text_spec(ErrorView::ExpansionFailed(m))
}

/// Renders an error as the text posted to the callback URL.
pub fn error_text(e: &RenderError) -> (r: Vec<u8>)
    ensures
        r@ == error_text_spec(e@),
{
    let mut out: Vec<u8> = Vec::new();
    match e {
        RenderError::InvalidSpec => {
            proof {
                reveal_strlit("invalid document spec");
            }
            push_ascii(&mut out, "invalid document spec");
        },
        RenderError::FetchFailed(d) => {
            proof {
                reveal_strlit("fetch failed: ");
            }
            push_ascii(&mut out, "fetch failed: ");
            push_bytes(&mut out, d.as_slice());
        },
        RenderError::RedirectInvalid => {
            proof {
                reveal_strlit("redirect without usable Location");
            }
            push_ascii(&mut out, "redirect without usable Location");
        },
        RenderError::BodyTooLarge => {
            proof {
                reveal_strlit("body exceeds the asset size limit");
            }
            push_ascii(&mut out, "body exceeds the asset size limit");
        },
        RenderError::TemplateNotUtf8 => {
            proof {
                reveal_strlit("template is not valid UTF-8");
            }
            push_ascii(&mut out, "template is not valid UTF-8");
        },
        RenderError::ExpansionFailed(d) => {
            proof {
                reveal_strlit("template expansion failed: ");
            }
            push_ascii(&mut out, "template expansion failed: ");
            push_bytes(&mut out, d.as_slice());
        },
        RenderError::FilesystemFailed(d) => {
            proof {
                reveal_strlit("filesystem error: ");
            }
            push_ascii(&mut out, "filesystem error: ");
            push_bytes(&mut out, d.as_slice());
        },
        RenderError::TypesetFailed(stdout_text) => {
            proof {
                reveal_strlit("typesetting failed: ");
            }
            push_ascii(&mut out, "typesetting failed: ");
            push_bytes(&mut out, stdout_text.as_slice());
        },
        RenderError::UploadFailed(d) => {
            proof {
                reveal_strlit("upload failed: ");
            }
            push_ascii(&mut out, "upload failed: ");
            push_bytes(&mut out, d.as_slice());
        },
        RenderError::CallbackFailed => {
            proof {
                reveal_strlit("callback failed");
            }
            push_ascii(&mut out, "callback failed");
        },
    }
    out
}

/// The typesetter's stdout stands verbatim inside the text of the error
/// that reports it.
pub proof fn lemma_typeset_error_carries_stdout(out: Seq<u8>)
    ensures
        ({
            let t = error_text_spec(ErrorView::TypesetFailed(out));
            t.subrange(t.len() - out.len(), t.len() as int) =~= out
        }),
{
}

} // verus!
