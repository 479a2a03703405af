use seqfetch::args::Format;
use seqfetch::download::{
    accession_job, all_succeeded, failure_message, plan_downloads, record_outcome, start_message,
    DownloadTask,
};
use seqfetch::errors::AppError;

fn strings(items: &[&str]) -> Vec<String> {
    items.iter().map(|s| s.to_string()).collect()
}

#[test]
fn one_accession_one_format() {
    let jobs = plan_downloads(strings(&["nc_000001 ", "NC_000001"]), &vec![Format::Fasta]).unwrap();
    assert_eq!(jobs.len(), 1);
    assert_eq!(jobs[0].accession, "NC_000001");
    assert_eq!(
        jobs[0].tasks,
        vec![DownloadTask {
            accession: "NC_000001".to_string(),
            format: Format::Fasta,
            url: "https://www.ncbi.nlm.nih.gov/sviewer/viewer.fcgi?id=NC_000001&db=nuccore&report=fasta&retmode=text".to_string(),
            file_name: "NC_000001.fasta".to_string(),
        }]
    );
}

#[test]
fn no_accession_no_plan() {
    assert_eq!(
        plan_downloads(Vec::new(), &vec![Format::Fasta, Format::Gff3]),
        Err(AppError::EmptyAccessionList)
    );
    assert_eq!(
        plan_downloads(strings(&[" ", ""]), &vec![Format::Genbank]),
        Err(AppError::EmptyAccessionList)
    );
}

#[test]
fn format_named_twice_is_planned_once() {
    let jobs = plan_downloads(strings(&["a1"]), &vec![Format::Gff3, Format::Gff3]).unwrap();
    assert_eq!(jobs.len(), 1);
    assert_eq!(jobs[0].tasks.len(), 1);
    assert_eq!(jobs[0].tasks[0].format, Format::Gff3);
    assert_eq!(jobs[0].tasks[0].file_name, "A1.gff3");
}

#[test]
fn plan_is_the_cross_product() {
    let formats = vec![Format::Genbank, Format::Fasta, Format::Genbank];
    let jobs = plan_downloads(strings(&["b", "a", "B "]), &formats).unwrap();
    assert_eq!(jobs.len(), 2);
    assert_eq!(jobs[0].accession, "B");
    assert_eq!(jobs[1].accession, "A");
    for job in &jobs {
        assert_eq!(job.tasks.len(), 2);
        assert_eq!(job.tasks[0].format, Format::Genbank);
        assert_eq!(job.tasks[1].format, Format::Fasta);
        for task in &job.tasks {
            assert_eq!(task.accession, job.accession);
        }
    }
    assert_eq!(jobs[0].tasks[0].file_name, "B.gb");
    assert_eq!(jobs[0].tasks[1].file_name, "B.fasta");
    assert_eq!(jobs[1].tasks[0].file_name, "A.gb");
    assert_eq!(
        jobs[1].tasks[1].url,
        "https://www.ncbi.nlm.nih.gov/sviewer/viewer.fcgi?id=A&db=nuccore&report=fasta&retmode=text"
    );
}

#[test]
fn planned_files_are_distinct() {
    let formats = vec![Format::Fasta, Format::Genbank, Format::Gff3];
    let jobs = plan_downloads(strings(&["x", "y", "x.fasta"]), &formats).unwrap();
    let mut paths: Vec<(String, String)> = Vec::new();
    for job in &jobs {
        for task in &job.tasks {
            let path = (job.accession.clone(), task.file_name.clone());
            assert!(!paths.contains(&path));
            paths.push(path);
        }
    }
    assert_eq!(paths.len(), 9);
}

#[test]
fn no_format_no_task() {
    let jobs = plan_downloads(strings(&["x"]), &Vec::new()).unwrap();
    assert_eq!(jobs.len(), 1);
    assert!(jobs[0].tasks.is_empty());
}

#[test]
fn job_for_one_accession() {
    let job = accession_job("Q9", &vec![Format::Gff3, Format::Fasta]);
    assert_eq!(job.accession, "Q9");
    assert_eq!(job.tasks.len(), 2);
    assert_eq!(job.tasks[0].file_name, "Q9.gff3");
    assert_eq!(job.tasks[1].file_name, "Q9.fasta");
}

#[test]
fn one_failure_clears_the_flag() {
    assert!(all_succeeded(&Vec::new()));
    assert!(all_succeeded(&vec![Ok(()), Ok(())]));
    assert!(!all_succeeded(&vec![Ok(()), Err(AppError::IoError("x".to_string())), Ok(())]));
    assert!(!all_succeeded(&vec![Err(AppError::EmptyAccessionList)]));
}

#[test]
fn a_failed_format_leaves_the_others_in_the_plan() {
    let jobs = plan_downloads(strings(&["a", "b"]), &vec![Format::Fasta, Format::Gff3]).unwrap();
    let mut attempted = 0;
    let mut statuses = Vec::new();
    for job in &jobs {
        let mut outcomes = Vec::new();
        for task in &job.tasks {
            attempted += 1;
            if task.format == Format::Fasta && task.accession == "A" {
                outcomes.push(Err(AppError::InvalidResponseError("<html>".to_string())));
            } else {
                outcomes.push(Ok(()));
            }
        }
        statuses.push(all_succeeded(&outcomes));
    }
    assert_eq!(attempted, 4);
    assert_eq!(statuses, vec![false, true]);
}

#[test]
fn report_texts() {
    assert_eq!(start_message("NC_1", &Format::Genbank), "NC_1: downloading genbank...");
    assert_eq!(
        failure_message(
            "NC_1",
            &Format::Fasta,
            &AppError::InvalidResponseError("<html>".to_string())
        ),
        "NC_1 (fasta): <html>"
    );
    assert_eq!(
        failure_message("NC_1", &Format::Gff3, &AppError::EmptyAccessionList),
        "NC_1 (gff3): empty accession list"
    );
}

#[test]
fn success_flag_is_cleared_for_good() {
    let failed: Result<(), AppError> = Err(AppError::RequestError("x".to_string()));
    assert!(record_outcome(true, &Ok(())));
    assert!(!record_outcome(true, &failed));
    assert!(!record_outcome(false, &Ok(())));
    assert!(!record_outcome(false, &failed));
}
