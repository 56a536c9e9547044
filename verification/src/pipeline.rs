//! The render pipeline as a state machine. A job is driven from outside:
//! the machine hands out one action at a time (create the workspace, fetch
//! the template, run the typesetter, post the callback, ...), the driver
//! performs it and hands back the event it observed, and the machine decides
//! the next action. All decisions — ordering, the failure-to-callback
//! policy, the unconditional workspace archive, the single teardown — are
//! verified here; the driver only moves bytes.
//!
//! The machine counts what it has asked for (workspace creations, callback
//! posts, archive uploads, deletions), and its invariant pins those counts
//! per stage; the lifecycle laws at the bottom follow from the invariant.

use vstd::prelude::*;
use vstd::utf8::valid_utf8;
use crate::body::{concat_chunks, total_len, read_body_with_limit};
use crate::bytes::{copy_bytes, copy_list, views_of};
use crate::document::{
    DocumentSpec, valid_output_filename, tex_filename_spec, check_output_filename, tex_filename,
    logs_filename, logs_filename_spec, object_key, object_key_spec, tar_name, tar_name_spec,
};
use crate::errors::{RenderError, ErrorView, error_text, error_text_spec, is_expansion_failure_text};
use crate::expand::{expand_template, bytes_to_string};

verus! {

/// Where a job stands.
pub enum Stage {
    /// The workspace directory is being created.
    CreatingWorkspace,
    /// The per-job logger is being built.
    CreatingLogger,
    /// The template is being fetched.
    FetchingTemplate,
    /// The expanded template is being written into the workspace.
    WritingTemplate,
    /// The assets are being downloaded into the workspace.
    DownloadingAssets,
    /// The typesetter is running.
    Typesetting,
    /// The produced document is being uploaded.
    UploadingPdf,
    /// The uploaded document is being presigned.
    Presigning,
    /// The success or failure callback is being posted.
    ReportingOutcome,
    /// The workspace archive is being uploaded.
    Archiving,
    /// The workspace is being deleted.
    Deleting,
    /// The job has settled.
    Done,
}

/// Why a fetch came back empty-handed.
pub enum FetchFailure {
    /// A transport or HTTP error, with the transport's description.
    Net(Vec<u8>),
    /// A redirect without a usable `Location`, or a redirect loop.
    RedirectInvalid,
}

/// What the typesetter left behind.
pub struct TypesetOutput {
    /// Whether it exited with status zero.
    pub exit_ok: bool,
    /// Its captured standard output.
    pub stdout: Vec<u8>,
}

/// What the driver observed while performing the last action.
pub enum Event {
    /// The workspace directory was created, or could not be.
    WorkspaceCreated(Result<(), Vec<u8>>),
    /// The per-job logger was built, or could not be.
    LoggerCreated(Result<(), Vec<u8>>),
    /// The template body arrived in chunks, or the fetch failed.
    TemplateFetched(Result<Vec<Vec<u8>>, FetchFailure>),
    /// The template file was written, or could not be.
    TemplateWritten(Result<(), Vec<u8>>),
    /// Every asset was downloaded and written, or the first failure.
    AssetsDownloaded(Result<(), RenderError>),
    /// The typesetter finished.
    TypesetterDone(TypesetOutput),
    /// The document was uploaded, or the upload failed.
    PdfUploaded(Result<(), Vec<u8>>),
    /// A presigned URL was minted for the uploaded document.
    Presigned(Result<Vec<u8>, Vec<u8>>),
    /// The callback POST was attempted; its status is logged and swallowed.
    CallbackPosted(bool),
    /// The archive upload was attempted; failures are logged and swallowed.
    TarUploaded(bool),
    /// The workspace directory is gone.
    WorkspaceDeleted,
}

/// What a callback POST carries.
pub enum CallbackBody {
    /// The job succeeded: the presigned URL of the document and the job's
    /// key prefix.
    Success { presigned_url: Vec<u8>, key_prefix: Vec<u8> },
    /// The job failed: the text of the error.
    Failure { error: Vec<u8> },
}

/// What the driver is asked to do next.
pub enum Action {
    /// Create a fresh, unique workspace directory.
    CreateWorkspace,
    /// Build the per-job logger, writing to this file inside the workspace.
    CreateLogger { filename: Vec<u8> },
    /// GET this URL, following redirects, reading the body under the limit.
    FetchTemplate { url: Vec<u8>, max_size: usize },
    /// Write these bytes to this file inside the workspace.
    WriteTemplateFile { filename: Vec<u8>, contents: Vec<u8> },
    /// Download every asset into the workspace, each body under the limit.
    DownloadAssets { urls: Vec<Vec<u8>>, max_size: usize },
    /// Run the typesetter against this source file, in the workspace.
    RunTypesetter { source_filename: Vec<u8> },
    /// Upload this workspace file under this object store key.
    UploadPdf { filename: Vec<u8>, key: Vec<u8> },
    /// Mint a presigned URL for this key.
    Presign { key: Vec<u8> },
    /// POST this outcome to the job's callback URL.
    PostCallback { url: Vec<u8>, outcome: CallbackBody },
    /// Archive the whole workspace and upload it under this key.
    UploadTar { key: Vec<u8> },
    /// Delete the workspace directory tree.
    DeleteWorkspace,
    /// The job is over; no workspace was ever created.
    Abort,
    /// The job is over.
    Finished,
}

/// One render job being driven to its end.
pub struct RenderJob {
    /// The document specification the job runs on.
    pub doc: DocumentSpec,
    /// The job's unique object store key prefix.
    pub key_prefix: Vec<u8>,
    /// The body size limit for the template and for every asset.
    pub max_size: usize,
    /// Where the job stands.
    pub stage: Stage,
    /// How many workspace creations were asked for.
    pub creates: u32,
    /// How many callback POSTs were asked for.
    pub callbacks: u32,
    /// How many archive uploads were asked for.
    pub tars: u32,
    /// How many workspace deletions were asked for.
    pub deletes: u32,
    /// Whether the workspace directory exists right now.
    pub ws_live: bool,
    /// Whether the workspace directory was ever created.
    pub ws_was_created: bool,
}

impl RenderJob {
    /// The accounting that every stage maintains. The stages before the
    /// callback have posted nothing; the callback is posted exactly once;
    /// the archive goes up after the callback, the deletion after the
    /// archive; a settled job holds no workspace.
    pub open spec fn inv(self) -> bool {
        &&& valid_output_filename(self.doc.output_filename@)
        &&& self.creates == 1
        &&& match self.stage {
            Stage::CreatingWorkspace => !self.ws_was_created && !self.ws_live
                && self.callbacks == 0 && self.tars == 0 && self.deletes == 0,
            Stage::CreatingLogger | Stage::FetchingTemplate | Stage::WritingTemplate
                | Stage::DownloadingAssets | Stage::Typesetting | Stage::UploadingPdf
                | Stage::Presigning => self.ws_was_created && self.ws_live && self.callbacks == 0
                && self.tars == 0 && self.deletes == 0,
            Stage::ReportingOutcome => self.ws_was_created && self.ws_live && self.callbacks == 1
                && self.tars == 0 && self.deletes == 0,
            Stage::Archiving => self.ws_was_created && self.ws_live && self.callbacks == 1
                && self.tars == 1 && self.deletes == 0,
            Stage::Deleting => self.ws_was_created && self.ws_live && self.callbacks == 1
                && self.tars == 1 && self.deletes == 1,
            Stage::Done => !self.ws_live && (self.ws_was_created ==> self.callbacks == 1
                && self.tars == 1 && self.deletes == 1) && (!self.ws_was_created
                ==> self.callbacks == 0 && self.tars == 0 && self.deletes == 0),
        }
    }

    /// Which event answers the pending action of each stage.
    pub open spec fn expects(self, e: Event) -> bool {
        match (self.stage, e) {
            (Stage::CreatingWorkspace, Event::WorkspaceCreated(_)) => true,
            (Stage::CreatingLogger, Event::LoggerCreated(_)) => true,
            (Stage::FetchingTemplate, Event::TemplateFetched(_)) => true,
            (Stage::WritingTemplate, Event::TemplateWritten(_)) => true,
            (Stage::DownloadingAssets, Event::AssetsDownloaded(_)) => true,
            (Stage::Typesetting, Event::TypesetterDone(_)) => true,
            (Stage::UploadingPdf, Event::PdfUploaded(_)) => true,
            (Stage::Presigning, Event::Presigned(_)) => true,
            (Stage::ReportingOutcome, Event::CallbackPosted(_)) => true,
            (Stage::Archiving, Event::TarUploaded(_)) => true,
            (Stage::Deleting, Event::WorkspaceDeleted) => true,
            _ => false,
        }
    }

    /// The job fails over to the callback: the next action posts this error
    /// to the job's callback URL.
    pub open spec fn fails_with(self, next: RenderJob, a: Action, ev: ErrorView) -> bool {
        &&& (a matches Action::PostCallback { url, outcome } && url@ == self.doc.callback_url@
            && (outcome matches CallbackBody::Failure { error } && error@ == error_text_spec(ev)))
        &&& next.stage is ReportingOutcome
    }

    /// The job proceeds to the typesetter over the written template.
    pub open spec fn starts_typesetter(self, next: RenderJob, a: Action) -> bool {
        &&& (a matches Action::RunTypesetter { source_filename } && source_filename@
            == tex_filename_spec(self.doc.output_filename@))
        &&& next.stage is Typesetting
    }

    /// Everything the job remembers, apart from its stage and accounting.
    pub open spec fn same_job(self, next: RenderJob) -> bool {
        &&& next.doc == self.doc
        &&& next.key_prefix == self.key_prefix
        &&& next.max_size == self.max_size
    }

    /// Accepts a document specification and opens a job on it: the first
    /// action creates the workspace. A specification whose output filename
    /// is empty, lacks the `.pdf` extension or contains a path separator is
    /// rejected and no job starts.
    pub fn accept(doc: DocumentSpec, key_prefix: Vec<u8>, max_size: usize) -> (r: Result<
        (RenderJob, Action),
        RenderError,
    >)
        ensures
            valid_output_filename(doc.output_filename@) ==> (r matches Ok(p) && {
                &&& p.1 is CreateWorkspace
                &&& p.0.inv()
                &&& p.0.stage is CreatingWorkspace
                &&& p.0.doc == doc
                &&& p.0.key_prefix == key_prefix
                &&& p.0.max_size == max_size
                &&& p.0.creates == 1
            }),
            !valid_output_filename(doc.output_filename@) ==> (r matches Err(e)
                && e is InvalidSpec),
    {
        if !check_output_filename(doc.output_filename.as_slice()) {
            return Err(RenderError::InvalidSpec);
        }
        let job = RenderJob {
            doc,
            key_prefix,
            max_size,
            stage: Stage::CreatingWorkspace,
            creates: 1,
            callbacks: 0,
            tars: 0,
            deletes: 0,
            ws_live: false,
            ws_was_created: false,
        };
        Ok((job, Action::CreateWorkspace))
    }

    /// Posts this error to the callback URL and moves to the reporting
    /// stage.
    fn fail_over(&mut self, e: &RenderError) -> (a: Action)
        requires
            old(self).callbacks < u32::MAX,
        ensures
            old(self).fails_with(*final(self), a, e@),
            final(self).callbacks == old(self).callbacks + 1,
            final(self).tars == old(self).tars,
            final(self).deletes == old(self).deletes,
            final(self).creates == old(self).creates,
            final(self).ws_live == old(self).ws_live,
            final(self).ws_was_created == old(self).ws_was_created,
            old(self).same_job(*final(self)),
            a is PostCallback,
    {
        self.stage = Stage::ReportingOutcome;
        self.callbacks = self.callbacks + 1;
        Action::PostCallback {
            url: copy_bytes(self.doc.callback_url.as_slice()),
            outcome: CallbackBody::Failure { error: error_text(e) },
        }
    }

    /// Takes the event the driver observed and decides the next action.
    /// The transition relation is stated exactly, stage by stage, in the
    /// contract; the accounting ties each counted action to its counter.
    pub fn step(&mut self, event: Event) -> (a: Action)
        requires
            old(self).inv(),
            old(self).expects(event),
        ensures
            final(self).inv(),
            old(self).same_job(*final(self)),
            final(self).creates == old(self).creates,
            (a is PostCallback ==> final(self).callbacks == old(self).callbacks + 1)
                && (!(a is PostCallback) ==> final(self).callbacks == old(self).callbacks),
            (a is UploadTar ==> final(self).tars == old(self).tars + 1)
                && (!(a is UploadTar) ==> final(self).tars == old(self).tars),
            (a is DeleteWorkspace ==> final(self).deletes == old(self).deletes + 1)
                && (!(a is DeleteWorkspace) ==> final(self).deletes == old(self).deletes),
            match (old(self).stage, event) {
                (Stage::CreatingWorkspace, Event::WorkspaceCreated(res)) => match res {
                    Ok(_) => (a matches Action::CreateLogger { filename } && filename@
                        == logs_filename_spec()) && final(self).stage is CreatingLogger
                        && final(self).ws_live && final(self).ws_was_created,
                    Err(_) => a is Abort && final(self).stage is Done
                        && !final(self).ws_was_created,
                },
                (Stage::CreatingLogger, Event::LoggerCreated(res)) => match res {
                    Ok(_) => (a matches Action::FetchTemplate { url, max_size } && url@
                        == old(self).doc.template_url@ && max_size == old(self).max_size)
                        && final(self).stage is FetchingTemplate,
                    Err(m) => old(self).fails_with(
                        *final(self),
                        a,
                        ErrorView::FilesystemFailed(m@),
                    ),
                },
                (Stage::FetchingTemplate, Event::TemplateFetched(res)) => match res {
                    Err(FetchFailure::Net(d)) => old(self).fails_with(
                        *final(self),
                        a,
                        ErrorView::FetchFailed(d@),
                    ),
                    Err(FetchFailure::RedirectInvalid) => old(self).fails_with(
                        *final(self),
                        a,
                        ErrorView::RedirectInvalid,
                    ),
                    Ok(chunks) => ({
                        let cv = views_of(chunks@);
                        let body = concat_chunks(cv);
                        &&& total_len(cv) > old(self).max_size ==> old(self).fails_with(
                            *final(self),
                            a,
                            ErrorView::BodyTooLarge,
                        )
                        &&& total_len(cv) <= old(self).max_size && !valid_utf8(body) ==> old(self).fails_with(*final(self), a, ErrorView::TemplateNotUtf8)
                        &&& total_len(cv) <= old(self).max_size && valid_utf8(body) ==> ({
                            ||| (a matches Action::WriteTemplateFile { filename, contents }
                                && filename@ == tex_filename_spec(old(self).doc.output_filename@))
                                && final(self).stage is WritingTemplate
                            ||| (a matches Action::PostCallback { url, outcome }
                                && url@ == old(self).doc.callback_url@
                                && (outcome matches CallbackBody::Failure { error }
                                && is_expansion_failure_text(error@)))
                                && final(self).stage is ReportingOutcome
                        })
                    }),
                },
                (Stage::WritingTemplate, Event::TemplateWritten(res)) => match res {
                    Ok(_) => if old(self).doc.assets_urls@.len() == 0 {
                        old(self).starts_typesetter(*final(self), a)
                    } else {
                        (a matches Action::DownloadAssets { urls, max_size } && views_of(urls@)
                            == views_of(old(self).doc.assets_urls@) && max_size == old(self).max_size) && final(self).stage is DownloadingAssets
                    },
                    Err(m) => old(self).fails_with(
                        *final(self),
                        a,
                        ErrorView::FilesystemFailed(m@),
                    ),
                },
                (Stage::DownloadingAssets, Event::AssetsDownloaded(res)) => match res {
                    Ok(_) => old(self).starts_typesetter(*final(self), a),
                    Err(e) => old(self).fails_with(*final(self), a, e@),
                },
                (Stage::Typesetting, Event::TypesetterDone(out)) => if out.exit_ok {
                    (a matches Action::UploadPdf { filename, key } && filename@ == old(self).doc.output_filename@ && key@ == object_key_spec(
                        old(self).key_prefix@,
                        old(self).doc.output_filename@,
                    )) && final(self).stage is UploadingPdf
                } else {
                    old(self).fails_with(*final(self), a, ErrorView::TypesetFailed(out.stdout@))
                },
                (Stage::UploadingPdf, Event::PdfUploaded(res)) => match res {
                    Ok(_) => (a matches Action::Presign { key } && key@ == object_key_spec(
                        old(self).key_prefix@,
                        old(self).doc.output_filename@,
                    )) && final(self).stage is Presigning,
                    Err(d) => old(self).fails_with(*final(self), a, ErrorView::UploadFailed(d@)),
                },
                (Stage::Presigning, Event::Presigned(res)) => match res {
                    Ok(u) => (a matches Action::PostCallback { url, outcome }
                        && url@ == old(self).doc.callback_url@
                        && (outcome matches CallbackBody::Success {
                        presigned_url,
                        key_prefix,
                    } && presigned_url@ == u@ && key_prefix@ == old(self).key_prefix@))
                        && final(self).stage is ReportingOutcome,
                    Err(d) => old(self).fails_with(*final(self), a, ErrorView::UploadFailed(d@)),
                },
                (Stage::ReportingOutcome, Event::CallbackPosted(_)) => (a matches
                    Action::UploadTar { key } && key@ == object_key_spec(
                    old(self).key_prefix@,
                    tar_name_spec(),
                )) && final(self).stage is Archiving,
                (Stage::Archiving, Event::TarUploaded(_)) => a is DeleteWorkspace
                    && final(self).stage is Deleting,
                (Stage::Deleting, Event::WorkspaceDeleted) => a is Finished && final(self).stage
                    is Done && !final(self).ws_live,
                _ => false,
            },
    {
        match (&self.stage, event) {
            (Stage::CreatingWorkspace, Event::WorkspaceCreated(res)) => match res {
                Ok(_) => {
                    self.stage = Stage::CreatingLogger;
                    self.ws_live = true;
                    self.ws_was_created = true;
                    Action::CreateLogger { filename: logs_filename() }
                },
                Err(_) => {
                    self.stage = Stage::Done;
                    Action::Abort
                },
            },
            (Stage::CreatingLogger, Event::LoggerCreated(res)) => match res {
                Ok(_) => {
                    self.stage = Stage::FetchingTemplate;
                    Action::FetchTemplate {
                        url: copy_bytes(self.doc.template_url.as_slice()),
                        max_size: self.max_size,
                    }
                },
                Err(m) => self.fail_over(&RenderError::FilesystemFailed(m)),
            },
            (Stage::FetchingTemplate, Event::TemplateFetched(res)) => match res {
                Err(FetchFailure::Net(d)) => self.fail_over(&RenderError::FetchFailed(d)),
                Err(FetchFailure::RedirectInvalid) => self.fail_over(
                    &RenderError::RedirectInvalid,
                ),
                Ok(chunks) => {
                    let body = match read_body_with_limit(&chunks, self.max_size) {
                        Ok(b) => b,
                        Err(_) => {
                            return self.fail_over(&RenderError::BodyTooLarge);
                        },
                    };
                    let text = match bytes_to_string(body) {
                        Ok(s) => s,
                        Err(_) => {
                            return self.fail_over(&RenderError::TemplateNotUtf8);
                        },
                    };
                    match expand_template(
                        text.as_str(),
                        self.doc.variables.as_str(),
                        self.doc.no_escape_latex,
                    ) {
                        Ok(expanded) => {
                            self.stage = Stage::WritingTemplate;
                            Action::WriteTemplateFile {
                                filename: tex_filename(self.doc.output_filename.as_slice()),
                                contents: expanded.as_str().as_bytes_vec(),
                            }
                        },
                        Err(e) => {
                            let a = self.fail_over(&e);
                            proof {
                                match e {
                                    RenderError::ExpansionFailed(d) => {
                                        assert(is_expansion_failure_text(
                                            error_text_spec(ErrorView::ExpansionFailed(d@)),
                                        ));
                                    },
                                    _ => {
                                        assert(false);
                                    },
                                }
                            }
                            a
                        },
                    }
                },
            },
            (Stage::WritingTemplate, Event::TemplateWritten(res)) => match res {
                Ok(_) => {
                    if self.doc.assets_urls.len() == 0 {
                        self.stage = Stage::Typesetting;
                        Action::RunTypesetter {
                            source_filename: tex_filename(self.doc.output_filename.as_slice()),
                        }
                    } else {
                        self.stage = Stage::DownloadingAssets;
                        Action::DownloadAssets {
                            urls: copy_list(&self.doc.assets_urls),
                            max_size: self.max_size,
                        }
                    }
                },
                Err(m) => self.fail_over(&RenderError::FilesystemFailed(m)),
            },
            (Stage::DownloadingAssets, Event::AssetsDownloaded(res)) => match res {
                Ok(_) => {
                    self.stage = Stage::Typesetting;
                    Action::RunTypesetter {
                        source_filename: tex_filename(self.doc.output_filename.as_slice()),
                    }
                },
                Err(e) => self.fail_over(&e),
            },
            (Stage::Typesetting, Event::TypesetterDone(out)) => {
                if out.exit_ok {
                    self.stage = Stage::UploadingPdf;
                    Action::UploadPdf {
                        filename: copy_bytes(self.doc.output_filename.as_slice()),
                        key: object_key(
                            self.key_prefix.as_slice(),
                            self.doc.output_filename.as_slice(),
                        ),
                    }
                } else {
                    self.fail_over(&RenderError::TypesetFailed(out.stdout))
                }
            },
            (Stage::UploadingPdf, Event::PdfUploaded(res)) => match res {
                Ok(_) => {
                    self.stage = Stage::Presigning;
                    Action::Presign {
                        key: object_key(
                            self.key_prefix.as_slice(),
                            self.doc.output_filename.as_slice(),
                        ),
                    }
                },
                Err(d) => self.fail_over(&RenderError::UploadFailed(d)),
            },
            (Stage::Presigning, Event::Presigned(res)) => match res {
                Ok(u) => {
                    self.stage = Stage::ReportingOutcome;
                    self.callbacks = self.callbacks + 1;
                    Action::PostCallback {
                        url: copy_bytes(self.doc.callback_url.as_slice()),
                        outcome: CallbackBody::Success {
                            presigned_url: u,
                            key_prefix: copy_bytes(self.key_prefix.as_slice()),
                        },
                    }
                },
                Err(d) => self.fail_over(&RenderError::UploadFailed(d)),
            },
            (Stage::ReportingOutcome, Event::CallbackPosted(_)) => {
                self.stage = Stage::Archiving;
                self.tars = self.tars + 1;
                let tname = tar_name();
                Action::UploadTar {
                    key: object_key(self.key_prefix.as_slice(), tname.as_slice()),
                }
            },
            (Stage::Archiving, Event::TarUploaded(_)) => {
                self.stage = Stage::Deleting;
                self.deletes = self.deletes + 1;
                Action::DeleteWorkspace
            },
            (Stage::Deleting, Event::WorkspaceDeleted) => {
                self.stage = Stage::Done;
                self.ws_live = false;
                Action::Finished
            },
            _ => {
                proof {
                    assert(false);
                }
                Action::Finished
            },
        }
    }
}

/// Every accepted render job asks for exactly one workspace creation, and
/// once the job has settled the workspace directory no longer exists.
pub proof fn lemma_workspace_lifecycle(job: RenderJob)
    requires
        job.inv(),
        job.stage is Done,
    ensures
        job.creates == 1,
        !job.ws_live,
        job.ws_was_created ==> job.deletes == 1,
{
}

/// For every render job whose workspace was created, exactly one callback
/// POST is made — success or failure, never both, never none. (A job whose
/// workspace could not be created posts no callback at all.)
pub proof fn lemma_callback_exactness(job: RenderJob)
    requires
        job.inv(),
        job.stage is Done,
        job.ws_was_created,
    ensures
        job.callbacks == 1,
{
}

/// For every job that produced a workspace, exactly one archive upload is
/// attempted under `<key_prefix>/workspace.tar`, whatever the outcome.
pub proof fn lemma_archive_completeness(job: RenderJob)
    requires
        job.inv(),
        job.stage is Done,
        job.ws_was_created,
    ensures
        job.tars == 1,
{
}

/// The archive is only ever uploaded after the callback was attempted, and
/// the workspace is only ever deleted after the archive upload settled.
pub proof fn lemma_teardown_order(job: RenderJob)
    requires
        job.inv(),
    ensures
        job.stage is Archiving ==> job.callbacks == 1,
        job.stage is Deleting ==> job.tars == 1,
        job.deletes == 1 ==> job.tars == 1,
        job.tars == 1 ==> job.callbacks == 1,
{
}

} // verus!
