use bandcamp_dl::http::{
    content_length, filename_from_disposition, filename_from_parsed, find_param, plan_fetch,
    resume_decision, BodyEvent, ContentDisposition, Directive, DispositionType, FetchError,
    FetchOutcome, FetchPlan, HeaderField, Phase, ResponseHead, Resume, TargetEntry, Transfer,
};

fn head(status: u16, length: HeaderField, disposition: HeaderField) -> ResponseHead {
    ResponseHead { status, content_length: length, content_disposition: disposition }
}

fn text(s: &str) -> HeaderField {
    HeaderField::Text(s.to_string())
}

#[test]
fn extended_parameter_is_preferred() {
    let header = "attachment; filename*=UTF-8''Caf%C3%A9.flac; filename=\"Cafe.flac\"";
    assert_eq!(filename_from_disposition(header), Ok("Café.flac".to_string()));
}

#[test]
fn plain_parameter_is_used_alone() {
    assert_eq!(
        filename_from_disposition("attachment; filename=\"track.mp3\""),
        Ok("track.mp3".to_string())
    );
}

#[test]
fn header_without_filename_fails() {
    assert_eq!(filename_from_disposition("attachment"), Err(FetchError::NoFilename));
    assert_eq!(filename_from_disposition("attachment; name=\"x\""), Err(FetchError::NoFilename));
}

#[test]
fn inline_disposition_fails() {
    assert_eq!(
        filename_from_disposition("inline; filename=\"track.mp3\""),
        Err(FetchError::NotAttachment)
    );
    assert_eq!(filename_from_disposition(""), Err(FetchError::NotAttachment));
    assert_eq!(
        filename_from_disposition("form-data; filename=\"a\""),
        Err(FetchError::NotAttachment)
    );
}

#[test]
fn disposition_type_is_read_without_regard_to_case() {
    assert_eq!(
        filename_from_disposition("Attachment; filename=\"a.zip\""),
        Ok("a.zip".to_string())
    );
}

#[test]
fn plain_parameter_is_taken_as_it_stands() {
    assert_eq!(
        filename_from_disposition("attachment; filename=\"a%20b.zip\""),
        Ok("a%20b.zip".to_string())
    );
    assert_eq!(
        filename_from_disposition("attachment; filename=\"a%20b.mp3\""),
        Ok("a%20b.mp3".to_string())
    );
}

#[test]
fn lone_extended_parameter_is_decoded_once() {
    assert_eq!(
        filename_from_disposition("attachment; filename*=UTF-8''a%2520b.mp3"),
        Ok("a%20b.mp3".to_string())
    );
}

#[test]
fn percent_sign_without_digits_stays() {
    assert_eq!(
        filename_from_disposition("attachment; filename=\"100%.zip\""),
        Ok("100%.zip".to_string())
    );
    assert_eq!(
        filename_from_disposition("attachment; filename=\"a%zzb\""),
        Ok("a%zzb".to_string())
    );
}

#[test]
fn extended_parameter_that_is_not_utf8_gives_way_to_the_plain_one() {
    let header = "attachment; filename*=UTF-8''bad%FF; filename=\"good.flac\"";
    assert_eq!(filename_from_disposition(header), Ok("good.flac".to_string()));
}

#[test]
fn extended_parameter_alone_is_read() {
    assert_eq!(
        filename_from_disposition("attachment; filename*=UTF-8''Caf%C3%A9.flac"),
        Ok("Café.flac".to_string())
    );
}

#[test]
fn plain_parameter_with_an_escape_that_is_not_utf8_is_kept() {
    assert_eq!(
        filename_from_disposition("attachment; filename=\"bad%FF\""),
        Ok("bad%FF".to_string())
    );
}

#[test]
fn content_length_is_read_as_a_number() {
    assert_eq!(content_length(&text("1024")), Ok(1024));
    assert_eq!(content_length(&text("0")), Ok(0));
    assert_eq!(content_length(&HeaderField::Absent), Err(FetchError::MissingLength));
    assert_eq!(content_length(&HeaderField::Opaque), Err(FetchError::InvalidLength));
    assert_eq!(content_length(&text("12 ")), Err(FetchError::InvalidLength));
    assert_eq!(content_length(&text("")), Err(FetchError::InvalidLength));
    assert_eq!(content_length(&text("-3")), Err(FetchError::InvalidLength));
}

#[test]
fn plan_names_file_and_length() {
    let h = head(200, text("12345"), text("attachment; filename=\"album.zip\""));
    assert_eq!(plan_fetch(&h), Ok(FetchPlan { filename: "album.zip".to_string(), length: 12345 }));
}

#[test]
fn plan_accepts_every_success_status() {
    for status in [200u16, 201, 206, 299] {
        let h = head(status, text("1"), text("attachment; filename=\"a\""));
        assert!(plan_fetch(&h).is_ok(), "status {status}");
    }
}

#[test]
fn plan_fails_with_the_status() {
    for status in [0u16, 100, 199, 300, 304, 404, 500, 65535] {
        let h = head(status, text("1"), text("attachment; filename=\"a\""));
        assert_eq!(plan_fetch(&h), Err(FetchError::Status(status)));
    }
}

#[test]
fn plan_reports_the_first_fault() {
    let good_name = text("attachment; filename=\"a\"");
    assert_eq!(
        plan_fetch(&head(404, HeaderField::Absent, HeaderField::Absent)),
        Err(FetchError::Status(404))
    );
    assert_eq!(
        plan_fetch(&head(200, HeaderField::Absent, HeaderField::Absent)),
        Err(FetchError::MissingLength)
    );
    assert_eq!(
        plan_fetch(&head(200, text("x"), HeaderField::Absent)),
        Err(FetchError::InvalidLength)
    );
    assert_eq!(
        plan_fetch(&head(200, HeaderField::Opaque, good_name.clone())),
        Err(FetchError::InvalidLength)
    );
    assert_eq!(
        plan_fetch(&head(200, text("5"), HeaderField::Absent)),
        Err(FetchError::MissingDisposition)
    );
    assert_eq!(
        plan_fetch(&head(200, text("5"), HeaderField::Opaque)),
        Err(FetchError::InvalidDisposition)
    );
    assert_eq!(
        plan_fetch(&head(200, text("5"), text("inline"))),
        Err(FetchError::NotAttachment)
    );
    assert_eq!(
        plan_fetch(&head(200, text("5"), text("attachment"))),
        Err(FetchError::NoFilename)
    );
}

#[test]
fn missing_directory_is_created() {
    assert_eq!(resume_decision(false, TargetEntry::Absent, 10), Resume::CreateAndWrite);
    assert_eq!(resume_decision(false, TargetEntry::File(10), 10), Resume::CreateAndWrite);
    assert_eq!(resume_decision(false, TargetEntry::Other, 10), Resume::CreateAndWrite);
}

#[test]
fn missing_file_is_written() {
    assert_eq!(resume_decision(true, TargetEntry::Absent, 10), Resume::Write);
}

#[test]
fn file_of_equal_length_is_kept() {
    assert_eq!(resume_decision(true, TargetEntry::File(10), 10), Resume::Skip);
    assert_eq!(resume_decision(true, TargetEntry::File(0), 0), Resume::Skip);
}

#[test]
fn file_of_other_length_is_replaced() {
    assert_eq!(resume_decision(true, TargetEntry::File(9), 10), Resume::Overwrite);
    assert_eq!(resume_decision(true, TargetEntry::File(11), 10), Resume::Overwrite);
    assert_eq!(resume_decision(true, TargetEntry::File(0), 10), Resume::Overwrite);
}

#[test]
fn entry_that_is_no_file_is_refused() {
    assert_eq!(resume_decision(true, TargetEntry::Other, 10), Resume::Refuse);
}

#[test]
fn begin_settles_skip_and_refuse_at_once() {
    assert_eq!(Transfer::begin(Resume::Skip), Err(FetchOutcome::SkippedIdentical));
    assert_eq!(
        Transfer::begin(Resume::Refuse),
        Err(FetchOutcome::Failed(FetchError::NotRegularFile))
    );
}

#[test]
fn begin_starts_receiving() {
    for resume in [Resume::Write, Resume::CreateAndWrite] {
        assert_eq!(
            Transfer::begin(resume),
            Ok(Transfer { replacing: false, stored: 0, phase: Phase::Receiving })
        );
    }
    assert_eq!(
        Transfer::begin(Resume::Overwrite),
        Ok(Transfer { replacing: true, stored: 0, phase: Phase::Receiving })
    );
}

#[test]
fn whole_body_is_downloaded() {
    let mut t = Transfer::begin(Resume::Write).unwrap();
    assert_eq!(t.on_event(BodyEvent::Stored(100)), Directive::KeepReading);
    assert_eq!(t.on_event(BodyEvent::Stored(23)), Directive::KeepReading);
    assert_eq!(t.outcome(), None);
    assert_eq!(t.on_event(BodyEvent::EndOfBody), Directive::Promote);
    assert_eq!(t.outcome(), None);
    assert_eq!(t.on_event(BodyEvent::Promoted), Directive::Stop);
    assert_eq!(t.outcome(), Some(FetchOutcome::Downloaded(123)));
}

#[test]
fn truncated_file_is_redownloaded_in_full() {
    let declared: u64 = 5000;
    let resume = resume_decision(true, TargetEntry::File(1200), declared);
    assert_eq!(resume, Resume::Overwrite);
    let mut t = Transfer::begin(resume).unwrap();
    for _ in 0..5 {
        assert_eq!(t.on_event(BodyEvent::Stored(1000)), Directive::KeepReading);
    }
    assert_eq!(t.on_event(BodyEvent::EndOfBody), Directive::Promote);
    assert_eq!(t.on_event(BodyEvent::Promoted), Directive::Stop);
    assert_eq!(t.outcome(), Some(FetchOutcome::Redownloaded(declared)));
}

#[test]
fn rerun_on_complete_file_skips() {
    let resume = resume_decision(true, TargetEntry::File(5000), 5000);
    assert_eq!(Transfer::begin(resume), Err(FetchOutcome::SkippedIdentical));
}

#[test]
fn failure_mid_stream_never_promotes() {
    for failure in [BodyEvent::ReadFailed, BodyEvent::WriteFailed] {
        let mut t = Transfer::begin(Resume::Overwrite).unwrap();
        assert_eq!(t.on_event(BodyEvent::Stored(10)), Directive::KeepReading);
        assert_eq!(t.on_event(failure), Directive::Abandon);
        let cause = if failure == BodyEvent::ReadFailed {
            FetchError::Transport
        } else {
            FetchError::Storage
        };
        assert_eq!(t.outcome(), Some(FetchOutcome::Failed(cause)));
        for later in [
            BodyEvent::Stored(5),
            BodyEvent::EndOfBody,
            BodyEvent::Promoted,
            BodyEvent::PromoteFailed,
        ] {
            assert_eq!(t.on_event(later), Directive::Stop);
            assert_eq!(t.outcome(), Some(FetchOutcome::Failed(cause)));
        }
    }
}

#[test]
fn failed_promotion_is_a_storage_failure() {
    let mut t = Transfer::begin(Resume::Write).unwrap();
    t.on_event(BodyEvent::Stored(1));
    assert_eq!(t.on_event(BodyEvent::EndOfBody), Directive::Promote);
    assert_eq!(t.on_event(BodyEvent::PromoteFailed), Directive::Stop);
    assert_eq!(t.outcome(), Some(FetchOutcome::Failed(FetchError::Storage)));
}

#[test]
fn events_out_of_turn_fail_the_transfer() {
    let mut t = Transfer::begin(Resume::Write).unwrap();
    assert_eq!(t.on_event(BodyEvent::Promoted), Directive::Abandon);
    assert_eq!(t.outcome(), Some(FetchOutcome::Failed(FetchError::Transport)));

    let mut u = Transfer::begin(Resume::Write).unwrap();
    u.on_event(BodyEvent::EndOfBody);
    assert_eq!(u.on_event(BodyEvent::Stored(1)), Directive::Stop);
    assert_eq!(u.outcome(), Some(FetchOutcome::Failed(FetchError::Storage)));
}

#[test]
fn empty_body_is_a_download_of_nothing() {
    let mut t = Transfer::begin(Resume::CreateAndWrite).unwrap();
    assert_eq!(t.on_event(BodyEvent::EndOfBody), Directive::Promote);
    assert_eq!(t.on_event(BodyEvent::Promoted), Directive::Stop);
    assert_eq!(t.outcome(), Some(FetchOutcome::Downloaded(0)));
}

#[test]
fn stored_bytes_stop_at_the_largest_count() {
    let mut t = Transfer::begin(Resume::Write).unwrap();
    t.on_event(BodyEvent::Stored(u64::MAX - 1));
    t.on_event(BodyEvent::Stored(5));
    assert_eq!(t.stored, u64::MAX);
}

#[test]
fn every_failure_has_its_text() {
    assert_eq!(FetchError::Status(404).describe(""), "Unexpected response status 404");
    assert_eq!(FetchError::MissingLength.describe(""), "No content-length header");
    assert_eq!(
        FetchError::InvalidLength.describe(""),
        "The content-length header is not a length"
    );
    assert_eq!(FetchError::MissingDisposition.describe(""), "No content-disposition header");
    assert_eq!(
        FetchError::InvalidDisposition.describe(""),
        "The content-disposition header is not text"
    );
    assert_eq!(
        FetchError::NotAttachment.describe("inline"),
        "Content-disposition is expected to be an attachment with filename param. got 'inline'"
    );
    assert_eq!(
        FetchError::NoFilename.describe("attachment"),
        "Could not parse a filename from the content-disposition header 'attachment'"
    );
    assert_eq!(
        FetchError::NotRegularFile.describe("/music/a"),
        "File '/music/a' already exists and is not a regular file!"
    );
    assert_eq!(
        FetchError::NoPageData.describe("https://example.org/d"),
        "No page-data for download at: https://example.org/d"
    );
    assert_eq!(FetchError::NoDataBlob.describe(""), "data-blob attribute not found");
    assert_eq!(
        FetchError::InvalidPageData.describe("expected value at line 1 column 1"),
        "data-blob attribute parse error: expected value at line 1 column 1"
    );
    assert_eq!(FetchError::NoDownloadItems.describe(""), "No download items present!");
    assert_eq!(
        FetchError::FormatUnavailable.describe("flac, wav"),
        "The requested format is not available in: flac, wav"
    );
    assert_eq!(FetchError::Transport.describe("timed out"), "Transfer failed: timed out");
    assert_eq!(
        FetchError::Storage.describe("disk full"),
        "Could not store the file: disk full"
    );
}

fn pairs(entries: &[(&str, &str)]) -> Vec<(String, String)> {
    entries.iter().map(|(k, v)| (k.to_string(), v.to_string())).collect()
}

#[test]
fn find_param_takes_the_first_of_a_name() {
    let params = pairs(&[("a", "1"), ("b", "2"), ("a", "3")]);
    assert_eq!(find_param(&params, "a"), Some(&"1".to_string()));
    assert_eq!(find_param(&params, "b"), Some(&"2".to_string()));
    assert_eq!(find_param(&params, "c"), None);
    assert_eq!(find_param(&Vec::new(), "a"), None);
}

#[test]
fn parsed_plain_parameter_is_not_decoded() {
    let parsed = ContentDisposition {
        disposition: DispositionType::Attachment,
        params: pairs(&[("filename", "100%25 live.flac")]),
    };
    assert_eq!(filename_from_parsed(&parsed), Ok("100%25 live.flac".to_string()));
}

#[test]
fn parsed_attachment_names_its_file() {
    let parsed = ContentDisposition {
        disposition: DispositionType::Attachment,
        params: pairs(&[("filename", "Cafe.flac"), ("filename*", "UTF-8''Caf%C3%A9.flac")]),
    };
    assert_eq!(filename_from_parsed(&parsed), Ok("Café.flac".to_string()));
}

#[test]
fn parsed_extended_parameter_needs_its_prefix() {
    let parsed = ContentDisposition {
        disposition: DispositionType::Attachment,
        params: pairs(&[("filename", "plain.flac"), ("filename*", "ISO-8859-1''x.flac")]),
    };
    assert_eq!(filename_from_parsed(&parsed), Ok("plain.flac".to_string()));
    let alone = ContentDisposition {
        disposition: DispositionType::Attachment,
        params: pairs(&[("filename*", "x.flac")]),
    };
    assert_eq!(filename_from_parsed(&alone), Err(FetchError::NoFilename));
}

#[test]
fn parsed_header_of_another_type_names_nothing() {
    for disposition in [
        DispositionType::Inline,
        DispositionType::FormData,
        DispositionType::Extension("x-other".to_string()),
    ] {
        let parsed = ContentDisposition { disposition, params: pairs(&[("filename", "a")]) };
        assert_eq!(filename_from_parsed(&parsed), Err(FetchError::NotAttachment));
    }
}
