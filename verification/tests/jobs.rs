use papers::document::DocumentSpec;
use papers::errors::RenderError;
use papers::expand::preview_text;
use papers::form::{
    boundary_of_content_type, callback_parts, content_type_matches, content_type_value,
    multipart_body,
};
use papers::pipeline::{Action, CallbackBody, Event, RenderJob, TypesetOutput};

fn contains(hay: &[u8], needle: &[u8]) -> bool {
    if needle.is_empty() {
        return true;
    }
    hay.windows(needle.len()).any(|w| w == needle)
}

fn spec_with_assets(assets: Vec<Vec<u8>>) -> DocumentSpec {
    DocumentSpec {
        template_url: b"https://t/template.tex".to_vec(),
        assets_urls: assets,
        variables: "{\"name\": \"Ada\"}".to_string(),
        output_filename: b"out.pdf".to_vec(),
        callback_url: b"https://c/done".to_vec(),
        no_escape_latex: false,
    }
}

fn accept_job(assets: Vec<Vec<u8>>) -> RenderJob {
    let (job, first) = RenderJob::accept(spec_with_assets(assets), b"job42".to_vec(), 4096)
        .unwrap();
    assert!(matches!(first, Action::CreateWorkspace));
    job
}

#[test]
fn test_preview_happy_path() {
    let chunks = vec![b"Hello {{ name }}".to_vec()];
    let out = preview_text(&chunks, "{\"name\": \"Ada\"}", false, 4096).unwrap();
    assert_eq!(out, "Hello Ada");
}

#[test]
fn test_preview_simple_substitution() {
    let chunks = vec![b"{{ a }}-{{ b }}".to_vec()];
    let vars = "{\"a\": \"x\", \"b\": \"y\"}";
    let out = preview_text(&chunks, vars, false, 4096).unwrap();
    assert_eq!(out, "x-y");
}

#[test]
fn test_preview_escapes_string_leaves() {
    // with the flag off, string leaves are escaped for the typesetter
    let chunks = vec![b"{{ v }}".to_vec()];
    let vars = "{\"v\": \"a&b_c%\"}";
    let escaped = preview_text(&chunks, vars, false, 4096).unwrap();
    assert_eq!(escaped, "a\\&b\\_c\\%");
    // with the flag on, the leaves pass through untouched
    let chunks = vec![b"{{ v }}".to_vec()];
    let raw = preview_text(&chunks, vars, true, 4096).unwrap();
    assert_eq!(raw, "a&b_c%");
}

#[test]
fn test_preview_escapes_nested_leaves() {
    let chunks = vec![b"{{ o.v }} {{ l[0] }}".to_vec()];
    let vars = "{\"o\": {\"v\": \"5$\"}, \"l\": [\"x#y\"]}";
    let out = preview_text(&chunks, vars, false, 4096).unwrap();
    assert_eq!(out, "5\\$ x\\#y");
}

#[test]
fn test_preview_expansion_failure() {
    let chunks = vec![b"Hello {{ missing }}".to_vec()];
    let r = preview_text(&chunks, "{}", false, 4096);
    assert!(matches!(r, Err(RenderError::ExpansionFailed(_))));
    let chunks = vec![b"{% bad".to_vec()];
    let r = preview_text(&chunks, "{}", false, 4096);
    assert!(matches!(r, Err(RenderError::ExpansionFailed(_))));
}

#[test]
fn test_preview_body_too_large() {
    let chunks = vec![vec![b'a'; 11]];
    assert!(matches!(preview_text(&chunks, "{}", false, 10), Err(RenderError::BodyTooLarge)));
    let chunks = vec![vec![b'a'; 10]];
    assert!(preview_text(&chunks, "{}", false, 10).is_ok());
}

#[test]
fn test_preview_template_not_utf8() {
    let chunks = vec![vec![0xffu8, 0xfe]];
    assert!(matches!(preview_text(&chunks, "{}", false, 10), Err(RenderError::TemplateNotUtf8)));
}

#[test]
fn test_render_happy_path() {
    let mut job = accept_job(vec![]);
    assert!(matches!(
        job.step(Event::WorkspaceCreated(Ok(()))),
        Action::CreateLogger { ref filename } if filename == b"logs.txt"
    ));
    assert!(matches!(
        job.step(Event::LoggerCreated(Ok(()))),
        Action::FetchTemplate { ref url, max_size: 4096 } if url == b"https://t/template.tex"
    ));
    let a = job.step(Event::TemplateFetched(Ok(vec![b"Hi {{ name }}".to_vec()])));
    match a {
        Action::WriteTemplateFile { filename, contents } => {
            assert_eq!(filename, b"out.tex".to_vec());
            assert_eq!(contents, b"Hi Ada".to_vec());
        },
        _ => panic!("the expanded template must be written"),
    }
    // no assets: the typesetter runs right after the template is written
    assert!(matches!(
        job.step(Event::TemplateWritten(Ok(()))),
        Action::RunTypesetter { ref source_filename } if source_filename == b"out.tex"
    ));
    let out = TypesetOutput { exit_ok: true, stdout: b"This is XeTeX".to_vec() };
    assert!(matches!(
        job.step(Event::TypesetterDone(out)),
        Action::UploadPdf { ref filename, ref key }
            if filename == b"out.pdf" && key == b"job42/out.pdf"
    ));
    assert!(matches!(
        job.step(Event::PdfUploaded(Ok(()))),
        Action::Presign { ref key } if key == b"job42/out.pdf"
    ));
    let a = job.step(Event::Presigned(Ok(b"https://s3/signed".to_vec())));
    match a {
        Action::PostCallback { url, outcome } => {
            assert_eq!(url, b"https://c/done".to_vec());
            match outcome {
                CallbackBody::Success { presigned_url, key_prefix } => {
                    assert_eq!(presigned_url, b"https://s3/signed".to_vec());
                    assert_eq!(key_prefix, b"job42".to_vec());
                },
                _ => panic!("a finished job reports success"),
            }
        },
        _ => panic!("the callback must be posted"),
    }
    assert!(matches!(
        job.step(Event::CallbackPosted(true)),
        Action::UploadTar { ref key } if key == b"job42/workspace.tar"
    ));
    assert!(matches!(job.step(Event::TarUploaded(true)), Action::DeleteWorkspace));
    assert!(matches!(job.step(Event::WorkspaceDeleted), Action::Finished));
    // exactly one callback, one archive, one teardown
    assert_eq!(job.callbacks, 1);
    assert_eq!(job.tars, 1);
    assert_eq!(job.deletes, 1);
    assert_eq!(job.creates, 1);
    assert!(!job.ws_live);
}

#[test]
fn test_typeset_failure_reports_stdout() {
    let mut job = accept_job(vec![]);
    job.step(Event::WorkspaceCreated(Ok(())));
    job.step(Event::LoggerCreated(Ok(())));
    job.step(Event::TemplateFetched(Ok(vec![b"x".to_vec()])));
    job.step(Event::TemplateWritten(Ok(())));
    let out = TypesetOutput {
        exit_ok: false,
        stdout: b"./out.tex:1: Undefined control sequence.".to_vec(),
    };
    let a = job.step(Event::TypesetterDone(out));
    match a {
        Action::PostCallback { outcome: CallbackBody::Failure { error }, .. } => {
            assert!(contains(&error, b"./out.tex:1: Undefined control sequence."));
        },
        _ => panic!("a failed typeset run must report failure"),
    }
    // the archive still goes up, and the workspace still comes down
    assert!(matches!(
        job.step(Event::CallbackPosted(true)),
        Action::UploadTar { ref key } if key == b"job42/workspace.tar"
    ));
    assert!(matches!(job.step(Event::TarUploaded(false)), Action::DeleteWorkspace));
    assert!(matches!(job.step(Event::WorkspaceDeleted), Action::Finished));
    assert_eq!(job.callbacks, 1);
    assert_eq!(job.tars, 1);
}

#[test]
fn test_oversized_asset_fails_job() {
    let mut job = accept_job(vec![b"https://h/a/big.bin".to_vec()]);
    job.step(Event::WorkspaceCreated(Ok(())));
    job.step(Event::LoggerCreated(Ok(())));
    job.step(Event::TemplateFetched(Ok(vec![b"x".to_vec()])));
    // with assets, the template write leads to the downloads
    assert!(matches!(
        job.step(Event::TemplateWritten(Ok(()))),
        Action::DownloadAssets { ref urls, max_size: 4096 } if urls.len() == 1
    ));
    let a = job.step(Event::AssetsDownloaded(Err(RenderError::BodyTooLarge)));
    match a {
        Action::PostCallback { outcome: CallbackBody::Failure { error }, .. } => {
            assert_eq!(error, b"body exceeds the asset size limit".to_vec());
        },
        _ => panic!("an oversized asset must fail the job"),
    }
    assert!(matches!(job.step(Event::CallbackPosted(true)), Action::UploadTar { .. }));
    assert_eq!(job.callbacks, 1);
    assert_eq!(job.tars, 1);
}

#[test]
fn test_workspace_failure_aborts_without_callback() {
    let mut job = accept_job(vec![]);
    let a = job.step(Event::WorkspaceCreated(Err(b"no space".to_vec())));
    assert!(matches!(a, Action::Abort));
    assert_eq!(job.callbacks, 0);
    assert_eq!(job.tars, 0);
    assert_eq!(job.deletes, 0);
}

#[test]
fn test_fetch_failure_reports() {
    let mut job = accept_job(vec![]);
    job.step(Event::WorkspaceCreated(Ok(())));
    job.step(Event::LoggerCreated(Ok(())));
    let a = job.step(Event::TemplateFetched(Err(
        papers::pipeline::FetchFailure::Net(b"connection refused".to_vec()),
    )));
    match a {
        Action::PostCallback { outcome: CallbackBody::Failure { error }, .. } => {
            assert!(contains(&error, b"connection refused"));
        },
        _ => panic!("a failed fetch must report failure"),
    }
}

#[test]
fn test_invalid_spec_rejected() {
    let mut doc = spec_with_assets(vec![]);
    doc.output_filename = b"../evil.pdf".to_vec();
    let r = RenderJob::accept(doc, b"p".to_vec(), 10);
    assert!(matches!(r, Err(RenderError::InvalidSpec)));
}

#[test]
fn test_multipart_body_exact_bytes() {
    let fields = vec![(b"error".to_vec(), b"boom".to_vec())];
    let body = multipart_body(b"B", &fields);
    let expected =
        b"--B\r\nContent-Disposition: form-data; name=\"error\"\r\n\r\nboom\r\n--B--\r\n";
    assert_eq!(body, expected.to_vec());
}

#[test]
fn test_callback_parts_success() {
    let outcome = CallbackBody::Success {
        presigned_url: b"https://s3/signed".to_vec(),
        key_prefix: b"job42".to_vec(),
    };
    let (boundary, body) = callback_parts(&outcome);
    assert!(!boundary.is_empty());
    assert!(contains(&body, b"name=\"file\""));
    assert!(contains(&body, b"https://s3/signed"));
    assert!(contains(&body, b"name=\"key_prefix\""));
    assert!(contains(&body, b"job42"));
    assert!(!contains(b"https://s3/signed", &boundary));
}

#[test]
fn test_callback_parts_failure() {
    let outcome = CallbackBody::Failure { error: b"typesetting failed: oops".to_vec() };
    let (boundary, body) = callback_parts(&outcome);
    assert!(contains(&body, b"name=\"error\""));
    assert!(contains(&body, b"typesetting failed: oops"));
    assert!(!contains(b"typesetting failed: oops", &boundary));
}

#[test]
fn test_content_type_round_trip() {
    let ct = content_type_value(b"xyz");
    assert_eq!(ct, b"multipart/form-data; boundary=xyz".to_vec());
    assert_eq!(boundary_of_content_type(&ct), Some(b"xyz".to_vec()));
    assert_eq!(boundary_of_content_type(b"multipart/form-data; boundary=\"q\""), Some(
        b"q".to_vec()
    ));
    assert_eq!(boundary_of_content_type(b"text/plain; boundary=xyz"), None);
}

#[test]
fn test_content_type_matches() {
    assert!(content_type_matches(b"application/json; charset=utf-8", "application/json"));
    assert!(content_type_matches(b"Application/JSON", "application/json"));
    assert!(!content_type_matches(b"text/plain", "application/json"));
}

#[test]
fn test_variables_text_must_parse() {
    // a variables text that is not JSON fails as an expansion error
    // carrying the parser's message
    let chunks = vec![b"static text".to_vec()];
    let r = preview_text(&chunks, "{not json", false, 4096);
    match r {
        Err(RenderError::ExpansionFailed(d)) => assert!(!d.is_empty()),
        _ => panic!("unparsable variables text must fail the expansion"),
    }
}

#[test]
fn test_variables_must_fit_the_expander() {
    // a top-level JSON array cannot be a template context
    let chunks = vec![b"static text".to_vec()];
    let r = preview_text(&chunks, "[1, 2]", false, 4096);
    assert!(matches!(r, Err(RenderError::ExpansionFailed(_))));
}

#[test]
fn test_redirect_invalid_reported() {
    let mut job = accept_job(vec![]);
    job.step(Event::WorkspaceCreated(Ok(())));
    job.step(Event::LoggerCreated(Ok(())));
    let a = job.step(Event::TemplateFetched(Err(papers::pipeline::FetchFailure::RedirectInvalid)));
    match a {
        Action::PostCallback { outcome: CallbackBody::Failure { error }, .. } => {
            assert_eq!(error, b"redirect without usable Location".to_vec());
        },
        _ => panic!("an unusable redirect must fail the job"),
    }
}

#[test]
fn test_write_failure_reported() {
    let mut job = accept_job(vec![]);
    job.step(Event::WorkspaceCreated(Ok(())));
    job.step(Event::LoggerCreated(Ok(())));
    job.step(Event::TemplateFetched(Ok(vec![b"x".to_vec()])));
    let a = job.step(Event::TemplateWritten(Err(b"disk full".to_vec())));
    match a {
        Action::PostCallback { outcome: CallbackBody::Failure { error }, .. } => {
            assert!(contains(&error, b"filesystem error"));
            assert!(contains(&error, b"disk full"));
        },
        _ => panic!("a failed write must fail the job"),
    }
}

#[test]
fn test_upload_failure_reported() {
    let mut job = accept_job(vec![]);
    job.step(Event::WorkspaceCreated(Ok(())));
    job.step(Event::LoggerCreated(Ok(())));
    job.step(Event::TemplateFetched(Ok(vec![b"x".to_vec()])));
    job.step(Event::TemplateWritten(Ok(())));
    job.step(Event::TypesetterDone(TypesetOutput { exit_ok: true, stdout: vec![] }));
    let a = job.step(Event::PdfUploaded(Err(b"store down".to_vec())));
    match a {
        Action::PostCallback { outcome: CallbackBody::Failure { error }, .. } => {
            assert!(contains(&error, b"upload failed"));
            assert!(contains(&error, b"store down"));
        },
        _ => panic!("a failed upload must fail the job"),
    }
}

#[test]
fn test_callback_failed_text() {
    let t = papers::errors::error_text(&RenderError::CallbackFailed);
    assert_eq!(t, b"callback failed".to_vec());
}
