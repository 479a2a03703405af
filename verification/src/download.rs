use crate::args::{dedup_formats, first_occurrences, lemma_first_occurrences, Format};
use crate::errors::{AppError, Failure};
use crate::text::{decode_text, is_blank, skip_spaces, text_starts_with, trim_text_start};
use crate::utils::{
    accession_norm_filt, file_name, file_name_of, get_url, lemma_normalized, normalized, texts,
    url_of,
};
use vstd::prelude::*;
use vstd::string::StringSliceAdditionalSpecFns;
use vstd::utf8::*;

verus! {

/// The largest number of characters of an offending body that a failure
/// message shows.
pub const PREVIEW_CHARS: usize = 200;

/// The head of `body` that a failure message shows.
pub open spec fn preview_of(body: Seq<char>) -> Seq<char> {
    if body.len() <= PREVIEW_CHARS {
        body
    } else {
        body.take(PREVIEW_CHARS as int)
    }
}

/// Whether the first chunk of a body passes for `format`, and with which
/// failure it does not.
pub open spec fn first_bytes_verdict(bytes: Seq<u8>, format: Format) -> Result<(), Failure> {
    if !valid_utf8(bytes) {
        Err(Failure::InvalidResponse("response is not valid UTF-8"@))
    } else {
        let body = skip_spaces(decode_utf8(bytes));
        if format.marker().is_prefix_of(body) {
            Ok(())
        } else {
            Err(Failure::InvalidResponse(preview_of(body)))
        }
    }
}

/// The outcome of one download with its failure as a `Failure`.
pub open spec fn outcome_view(outcome: Result<(), AppError>) -> Result<(), Failure> {
    match outcome {
        Ok(_) => Ok(()),
        Err(e) => Err(e@),
    }
}

/// Checks that the first chunk of a body looks like a record of `format`.
/// The remote side answers with a success status even where it has no such
/// record, and then sends an error page in place of the record.
pub fn validate_first_bytes(bytes: &[u8], format: &Format) -> (result: Result<(), AppError>)
    ensures
        outcome_view(result) == first_bytes_verdict(bytes@, *format),
{
    broadcast use encode_utf8_decode_utf8;

    let text = match decode_text(bytes) {
        Some(text) => text,
        None => {
            return Err(
                AppError::InvalidResponseError(String::from_str("response is not valid UTF-8")),
            );
        },
    };
    assert(text@ == decode_utf8(bytes@)) by {
        assert(decode_utf8(encode_utf8(text@)) == text@);
    }
    let body = trim_text_start(text);
    if text_starts_with(body, format.content_prefix()) {
        return Ok(());
    }
    let count: usize = body.unicode_len();
    let keep: usize = if count <= PREVIEW_CHARS {
        count
    } else {
        PREVIEW_CHARS
    };
    let preview = body.substring_char(0, keep);
    proof {
        assert(body@.subrange(0, keep as int) =~= preview_of(body@));
    }
    Err(AppError::InvalidResponseError(String::from_str(preview)))
}

/// A chunk that is not well-formed text is refused as an invalid response.
pub proof fn lemma_undecodable_chunk_refused(bytes: Seq<u8>, format: Format)
    requires
        !valid_utf8(bytes),
    ensures
        first_bytes_verdict(bytes, format) is Err,
        first_bytes_verdict(bytes, format)->Err_0 is InvalidResponse,
{
}

/// A chunk of text that does not begin with the marker of the format is
/// refused as an invalid response, and the message is a head of the body of
/// at most `PREVIEW_CHARS` characters: the whole body where it is that short.
pub proof fn lemma_mismatch_preview_bounded(bytes: Seq<u8>, format: Format)
    requires
        valid_utf8(bytes),
        !format.marker().is_prefix_of(skip_spaces(decode_utf8(bytes))),
    ensures
        first_bytes_verdict(bytes, format) is Err,
        first_bytes_verdict(bytes, format)->Err_0 is InvalidResponse,
        first_bytes_verdict(bytes, format)->Err_0.message().len() <= PREVIEW_CHARS,
        first_bytes_verdict(bytes, format)->Err_0.message().is_prefix_of(
            skip_spaces(decode_utf8(bytes)),
        ),
        skip_spaces(decode_utf8(bytes)).len() <= PREVIEW_CHARS
            ==> first_bytes_verdict(bytes, format)->Err_0.message() == skip_spaces(
            decode_utf8(bytes),
        ),
{
}

/// One request of a run: a record, the format in which it is wanted, where
/// it is fetched from and the name of the file it goes to, inside the
/// directory named after the accession.
#[derive(Clone, Debug, PartialEq, Eq)]
pub struct DownloadTask {
    pub accession: String,
    pub format: Format,
    pub url: String,
    pub file_name: String,
}

/// A `DownloadTask` with its texts as character sequences.
pub struct TaskModel {
    pub accession: Seq<char>,
    pub format: Format,
    pub url: Seq<char>,
    pub file_name: Seq<char>,
}

impl View for DownloadTask {
    type V = TaskModel;

    open spec fn view(&self) -> TaskModel {
        TaskModel {
            accession: self.accession@,
            format: self.format,
            url: self.url@,
            file_name: self.file_name@,
        }
    }
}

/// The request for the record `accession` in `format`.
pub open spec fn task_of(accession: Seq<char>, format: Format) -> TaskModel {
    TaskModel {
        accession,
        format,
        url: url_of(accession, format),
        file_name: file_name_of(accession, format),
    }
}

/// The work for one accession: its directory is named after it, and its
/// tasks are attempted in order, each whatever became of the others.
#[derive(Clone, Debug, PartialEq, Eq)]
pub struct AccessionJob {
    pub accession: String,
    pub tasks: Vec<DownloadTask>,
}

impl AccessionJob {
    /// Whether the job is the work for `accession` in `formats`, in that
    /// order.
    pub open spec fn covers(self, accession: Seq<char>, formats: Seq<Format>) -> bool {
        &&& self.accession@ == accession
        &&& self.tasks@.len() == formats.len()
        &&& forall|j: int|
            0 <= j < formats.len() ==> (#[trigger] self.tasks@[j])@ == task_of(
                accession,
                formats[j],
            )
    }
}

/// Whether `jobs` is the work for `accessions` in `formats`: one job for each
/// accession, in order, each with one task for each format, in order.
pub open spec fn jobs_cover(
    jobs: Seq<AccessionJob>,
    accessions: Seq<Seq<char>>,
    formats: Seq<Format>,
) -> bool {
    &&& jobs.len() == accessions.len()
    &&& forall|i: int| 0 <= i < jobs.len() ==> (#[trigger] jobs[i]).covers(accessions[i], formats)
}

/// The tasks for one accession, one for each format, in order.
pub fn accession_job(accession: &str, formats: &Vec<Format>) -> (job: AccessionJob)
    ensures
        job.covers(accession@, formats@),
{
    let mut tasks: Vec<DownloadTask> = Vec::new();
    let mut j: usize = 0;
    while j < formats.len()
        invariant
            j <= formats.len(),
            tasks@.len() == j,
            forall|k: int| 0 <= k < j ==> (#[trigger] tasks@[k])@ == task_of(accession@, formats@[k]),
        decreases formats.len() - j,
    {
        let format = formats[j];
        let task = DownloadTask {
            accession: String::from_str(accession),
            format,
            url: get_url(accession, &format),
            file_name: file_name(accession, &format),
        };
        tasks.push(task);
        j += 1;
    }
    AccessionJob { accession: String::from_str(accession), tasks }
}

/// Lays out a run: normalizes the accessions, drops repeated formats, and
/// pairs every accession that is left with every format that is left. A list
/// that leaves no accession is refused before anything is laid out.
pub fn plan_downloads(accessions: Vec<String>, formats: &Vec<Format>) -> (result: Result<
    Vec<AccessionJob>,
    AppError,
>)
    ensures
        match result {
            Ok(jobs) => jobs@.len() > 0 && jobs_cover(
                jobs@,
                normalized(texts(accessions@)),
                first_occurrences(formats@),
            ),
            Err(e) => e@ == Failure::EmptyAccessionList && normalized(texts(accessions@)).len()
                == 0,
        },
        result is Err <==> forall|j: int|
            0 <= j < accessions@.len() ==> is_blank(#[trigger] accessions@[j]@),
        normalized(texts(accessions@)).no_duplicates(),
        first_occurrences(formats@).no_duplicates(),
{
    proof {
        lemma_first_occurrences(formats@);
        lemma_normalized(texts(accessions@));
    }
    let ghost raw = texts(accessions@);
    let set = match accession_norm_filt(accessions) {
        Ok(set) => set,
        Err(_) => {
            return Err(AppError::EmptyAccessionList);
        },
    };
    let wanted = dedup_formats(formats);
    let mut jobs: Vec<AccessionJob> = Vec::new();
    let mut i: usize = 0;
    while i < set.len()
        invariant
            i <= set.len(),
            jobs@.len() == i,
            texts(set@) == normalized(raw),
            forall|k: int|
                0 <= k < i ==> (#[trigger] jobs@[k]).covers(normalized(raw)[k], wanted@),
        decreases set.len() - i,
    {
        proof {
            assert(texts(set@)[i as int] == set@[i as int]@);
        }
        let job = accession_job(set[i].as_str(), &wanted);
        jobs.push(job);
        i += 1;
    }
    proof {
        assert(texts(set@).len() == set@.len());
    }
    Ok(jobs)
}

/// Whether every download of an accession succeeded. Starts from success and
/// is cleared by any failure; an accession with no download counts as
/// succeeded.
pub fn all_succeeded(outcomes: &Vec<Result<(), AppError>>) -> (all_ok: bool)
    ensures
        all_ok == forall|i: int| 0 <= i < outcomes@.len() ==> (#[trigger] outcomes@[i]) is Ok,
{
    let mut all_ok = true;
    let mut i: usize = 0;
    while i < outcomes.len()
        invariant
            i <= outcomes.len(),
            all_ok == forall|k: int| 0 <= k < i ==> (#[trigger] outcomes@[k]) is Ok,
        decreases outcomes.len() - i,
    {
        if outcomes[i].is_err() {
            all_ok = false;
        }
        i += 1;
    }
    all_ok
}

/// The success flag of an accession after one more download: it stays set
/// only while every download succeeds.
pub fn record_outcome(all_ok: bool, outcome: &Result<(), AppError>) -> (still_ok: bool)
    ensures
        still_ok == (all_ok && outcome is Ok),
{
    all_ok && outcome.is_ok()
}

/// The report that a download begins.
pub open spec fn start_message_of(accession: Seq<char>, format: Format) -> Seq<char> {
    accession + ": downloading "@ + format.report_param() + "..."@
}

/// The report that a download failed, without its leading glyph.
pub open spec fn failure_message_of(accession: Seq<char>, format: Format, error: Failure) -> Seq<
    char,
> {
    accession + " ("@ + format.report_param() + "): "@ + error.message()
}

/// The report that a download begins.
pub fn start_message(accession: &str, format: &Format) -> (message: String)
    ensures
        message@ == start_message_of(accession@, *format),
{
    let mut message = String::from_str(accession);
    message.append(": downloading ");
    message.append(format.as_report_param());
    message.append("...");
    message
}

/// The report that a download failed, without its leading glyph.
pub fn failure_message(accession: &str, format: &Format, error: &AppError) -> (message: String)
    ensures
        message@ == failure_message_of(accession@, *format, error@),
{
    let mut message = String::from_str(accession);
    message.append(" (");
    message.append(format.as_report_param());
    message.append("): ");
    let detail = error.message();
    message.append(detail.as_str());
    message
}

/// A laid-out run holds a task for every accession with every format, fixed
/// before the first download begins: what becomes of one download takes no
/// task away from the others.
pub proof fn lemma_every_pair_is_planned(
    jobs: Seq<AccessionJob>,
    accessions: Seq<Seq<char>>,
    formats: Seq<Format>,
    i: int,
    j: int,
)
    requires
        jobs_cover(jobs, accessions, formats),
        0 <= i < accessions.len(),
        0 <= j < formats.len(),
    ensures
        jobs[i].accession@ == accessions[i],
        jobs[i].tasks@.len() == formats.len(),
        jobs[i].tasks@[j]@ == task_of(accessions[i], formats[j]),
{
    assert(jobs[i].covers(accessions[i], formats));
}

/// Every task of a laid-out run has a file of its own: two tasks with the
/// same directory and file name are the same task.
pub proof fn lemma_tasks_do_not_collide(a: Seq<char>, f: Format, b: Seq<char>, g: Format)
    requires
        task_of(a, f).accession == task_of(b, g).accession,
        task_of(a, f).file_name == task_of(b, g).file_name,
    ensures
        a == b,
        f == g,
{
    if f != g {
        crate::utils::lemma_file_names_distinct(a, f, g);
    }
}

} // verus!
