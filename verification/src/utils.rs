use crate::args::Format;
use crate::errors::{AppError, Failure};
use crate::text::{
    drop_trailing_spaces, is_ascii_lower, is_blank, is_space, is_trim,
    lemma_ascii_upper, lemma_trimmed_blank, lemma_trimmed_is_trim, skip_spaces, to_upper_text,
    trim_text, trimmed, upper_case,
};
use vstd::prelude::*;

verus! {

/// The largest number of times that a request is tried again after a
/// transient failure.
pub const MAX_RETRIES: u32 = 3;

/// The canonical form of an accession: trimmed, then upper case.
pub open spec fn normal_form(raw: Seq<char>) -> Seq<char> {
    upper_case(trimmed(raw))
}

/// The character sequences of a list of strings.
pub open spec fn texts(list: Seq<String>) -> Seq<Seq<char>> {
    Seq::new(list.len(), |i: int| list[i]@)
}

/// The working set of a run: the canonical forms of the raw accessions,
/// blanks left out, each once, in the order of first occurrence.
pub open spec fn normalized(raw: Seq<Seq<char>>) -> Seq<Seq<char>>
    decreases raw.len(),
{
    if raw.len() == 0 {
        Seq::empty()
    } else {
        let earlier = normalized(raw.drop_last());
        let accession = normal_form(raw.last());
        if accession.len() == 0 || earlier.contains(accession) {
            earlier
        } else {
            earlier.push(accession)
        }
    }
}

/// Whether `accession` is the canonical form of one of the raw accessions.
pub open spec fn stems_from(accession: Seq<char>, raw: Seq<Seq<char>>) -> bool {
    exists|j: int| 0 <= j < raw.len() && normal_form(#[trigger] raw[j]) == accession
}

/// Whether `accession` is fit for the working set: not empty, no whitespace
/// at either end, no ASCII letter in lower case.
pub open spec fn is_canonical(accession: Seq<char>) -> bool {
    &&& accession.len() > 0
    &&& is_trim(accession)
    &&& forall|i: int| 0 <= i < accession.len() ==> !is_ascii_lower(#[trigger] accession[i])
}

/// The address from which the record `accession` is fetched in `format`.
pub open spec fn url_of(accession: Seq<char>, format: Format) -> Seq<char> {
    "https://www.ncbi.nlm.nih.gov/sviewer/viewer.fcgi?id="@ + accession + "&db=nuccore&report="@
        + format.report_param() + "&retmode=text"@
}

/// The name of the file that holds the record `accession` in `format`.
pub open spec fn file_name_of(accession: Seq<char>, format: Format) -> Seq<char> {
    accession + format.extension()
}

pub fn get_url(accession: &str, format: &Format) -> (url: String)
    ensures
        url@ == url_of(accession@, *format),
{
    let mut url = String::from_str("https://www.ncbi.nlm.nih.gov/sviewer/viewer.fcgi?id=");
    url.append(accession);
    url.append("&db=nuccore&report=");
    url.append(format.as_report_param());
    url.append("&retmode=text");
    url
}

/// The name of the output file, inside the directory of its accession.
pub fn file_name(accession: &str, format: &Format) -> (name: String)
    ensures
        name@ == file_name_of(accession@, *format),
{
    let mut name = String::from_str(accession);
    name.append(format.file_extension());
    name
}

/// The canonical form of one raw accession.
pub fn normalize_accession(raw: &str) -> (accession: String)
    ensures
        accession@ == normal_form(raw@),
{
    to_upper_text(trim_text(raw))
}

/// Whether `accession` occurs among `seen`.
pub fn accession_listed(seen: &Vec<String>, accession: &String) -> (found: bool)
    ensures
        found == texts(seen@).contains(accession@),
{
    let mut i: usize = 0;
    while i < seen.len()
        invariant
            i <= seen.len(),
            forall|k: int| 0 <= k < i ==> seen@[k]@ != accession@,
        decreases seen.len() - i,
    {
        if seen[i] == *accession {
            proof {
                assert(texts(seen@)[i as int] == accession@);
            }
            return true;
        }
        i += 1;
    }
    false
}

/// Normalizes the raw accessions into the working set of a run, and refuses
/// a list that leaves none.
pub fn accession_norm_filt(accessions: Vec<String>) -> (result: Result<Vec<String>, AppError>)
    ensures
        match result {
            Ok(set) => texts(set@) == normalized(texts(accessions@)) && set@.len() > 0,
            Err(e) => e@ == Failure::EmptyAccessionList && normalized(texts(accessions@)).len()
                == 0,
        },
        result is Err <==> forall|j: int|
            0 <= j < accessions@.len() ==> is_blank(#[trigger] accessions@[j]@),
        result matches Ok(set) ==> {
            &&& texts(set@).no_duplicates()
            &&& forall|k: int| 0 <= k < set@.len() ==> is_canonical(#[trigger] set@[k]@)
            &&& forall|k: int|
                0 <= k < set@.len() ==> #[trigger] stems_from(set@[k]@, texts(accessions@))
            &&& forall|j: int|
                0 <= j < accessions@.len() && !is_blank(accessions@[j]@) ==> texts(
                    set@,
                ).contains(normal_form(#[trigger] accessions@[j]@))
        },
{
    let ghost raw = texts(accessions@);
    let mut set: Vec<String> = Vec::new();
    let mut i: usize = 0;
    while i < accessions.len()
        invariant
            i <= accessions.len(),
            raw == texts(accessions@),
            texts(set@) == normalized(raw.take(i as int)),
        decreases accessions.len() - i,
    {
        proof {
            assert(raw.take(i + 1).drop_last() =~= raw.take(i as int));
            assert(raw.take(i + 1).last() == accessions@[i as int]@);
        }
        let accession = normalize_accession(accessions[i].as_str());
        if !accession.as_str().is_empty() && !accession_listed(&set, &accession) {
            let ghost before = texts(set@);
            set.push(accession);
            proof {
                assert(texts(set@) =~= before.push(accession@));
            }
        }
        i += 1;
    }
    proof {
        assert(raw.take(i as int) =~= raw);
        lemma_working_set(raw);
        let found = texts(set@);
        assert(found.len() == set@.len());
        assert forall|j: int| 0 <= j < accessions@.len() implies raw[j] == accessions@[j]@ by {}
        if forall|j: int| 0 <= j < accessions@.len() ==> is_blank(#[trigger] accessions@[j]@) {
            assert forall|j: int| 0 <= j < raw.len() implies is_blank(#[trigger] raw[j]) by {
                assert(is_blank(accessions@[j]@));
            }
        }
        if found.len() == 0 {
            assert forall|j: int| 0 <= j < accessions@.len() implies is_blank(
                #[trigger] accessions@[j]@,
            ) by {
                assert(is_blank(raw[j]));
            }
        }
        assert forall|k: int| 0 <= k < set@.len() implies is_canonical(#[trigger] set@[k]@) by {
            assert(found[k] == set@[k]@);
            assert(is_canonical(found[k]));
        }
        assert forall|k: int| 0 <= k < set@.len() implies #[trigger] stems_from(
            set@[k]@,
            raw,
        ) by {
            assert(found[k] == set@[k]@);
            assert(stems_from(found[k], raw));
        }
        assert forall|j: int| 0 <= j < accessions@.len() && !is_blank(accessions@[j]@) implies found.contains(
            normal_form(#[trigger] accessions@[j]@),
        ) by {
            assert(!is_blank(raw[j]));
            assert(found.contains(normal_form(raw[j])));
        }
    }
    if set.len() == 0 {
        Err(AppError::EmptyAccessionList)
    } else {
        Ok(set)
    }
}

/// The working set holds nothing twice, only canonical accessions, and
/// exactly the canonical forms of the raw accessions that are not blank.
pub proof fn lemma_normalized(raw: Seq<Seq<char>>)
    ensures
        normalized(raw).no_duplicates(),
        normalized(raw).len() <= raw.len(),
        forall|k: int| 0 <= k < normalized(raw).len() ==> is_canonical(#[trigger] normalized(raw)[k]),
        forall|a: Seq<char>| #[trigger]
            normalized(raw).contains(a) <==> a.len() > 0 && exists|j: int|
                0 <= j < raw.len() && normal_form(#[trigger] raw[j]) == a,
    decreases raw.len(),
{
    if raw.len() > 0 {
        let front = raw.drop_last();
        let earlier = normalized(front);
        let accession = normal_form(raw.last());
        let set = normalized(raw);
        lemma_normalized(front);
        lemma_normal_form(raw.last());
        assert forall|a: Seq<char>| #[trigger]
            set.contains(a) <==> a.len() > 0 && exists|j: int|
                0 <= j < raw.len() && normal_form(#[trigger] raw[j]) == a by {
            if set.contains(a) {
                let k = choose|k: int| 0 <= k < set.len() && set[k] == a;
                if k < earlier.len() {
                    assert(earlier[k] == a);
                    assert(earlier.contains(a));
                    let j = choose|j: int|
                        0 <= j < front.len() && normal_form(#[trigger] front[j]) == a;
                    assert(normal_form(raw[j]) == a);
                } else {
                    assert(normal_form(raw[raw.len() - 1]) == a);
                }
            }
            if a.len() > 0 && exists|j: int|
                0 <= j < raw.len() && normal_form(#[trigger] raw[j]) == a {
                let j = choose|j: int| 0 <= j < raw.len() && normal_form(#[trigger] raw[j]) == a;
                if j < front.len() {
                    assert(normal_form(front[j]) == a);
                    assert(earlier.contains(a));
                    let k = choose|k: int| 0 <= k < earlier.len() && earlier[k] == a;
                    assert(set[k] == a);
                } else if earlier.contains(a) {
                    let k = choose|k: int| 0 <= k < earlier.len() && earlier[k] == a;
                    assert(set[k] == a);
                } else {
                    assert(set[set.len() - 1] == a);
                }
            }
        }
    }
}

/// The canonical form of any text neither begins nor ends with whitespace
/// and holds no ASCII letter in lower case; it is empty exactly for blank
/// text.
pub proof fn lemma_normal_form(raw: Seq<char>)
    ensures
        is_trim(normal_form(raw)),
        forall|i: int|
            0 <= i < normal_form(raw).len() ==> !is_ascii_lower(#[trigger] normal_form(raw)[i]),
        normal_form(raw).len() == 0 <==> is_blank(raw),
        normal_form(raw).len() > 0 ==> is_canonical(normal_form(raw)),
{
    let inner = trimmed(raw);
    lemma_trimmed_is_trim(raw);
    lemma_trimmed_blank(raw);
    assert forall|i: int| 0 <= i < inner.len() implies !is_ascii_lower(
        #[trigger] normal_form(raw)[i],
    ) && is_space(normal_form(raw)[i]) == is_space(inner[i]) by {
        lemma_ascii_upper(inner[i]);
    }
}

/// A list of nothing but blank texts, the empty list among them, leaves no
/// accession.
pub proof fn lemma_blank_list_normalizes_to_nothing(raw: Seq<Seq<char>>)
    requires
        forall|j: int| 0 <= j < raw.len() ==> is_blank(#[trigger] raw[j]),
    ensures
        normalized(raw).len() == 0,
    decreases raw.len(),
{
    if raw.len() > 0 {
        let front = raw.drop_last();
        assert forall|j: int| 0 <= j < front.len() implies is_blank(#[trigger] front[j]) by {
            assert(front[j] == raw[j]);
        }
        lemma_blank_list_normalizes_to_nothing(front);
        lemma_normal_form(raw.last());
    }
}

/// A working set is empty exactly for a list of nothing but blank texts; it
/// holds nothing twice, only canonical forms of raw accessions, and the
/// canonical form of every raw accession that is not blank.
pub proof fn lemma_working_set(raw: Seq<Seq<char>>)
    ensures
        normalized(raw).len() == 0 <==> forall|j: int|
            0 <= j < raw.len() ==> is_blank(#[trigger] raw[j]),
        normalized(raw).no_duplicates(),
        forall|k: int| 0 <= k < normalized(raw).len() ==> is_canonical(#[trigger] normalized(raw)[k]),
        forall|k: int|
            0 <= k < normalized(raw).len() ==> #[trigger] stems_from(normalized(raw)[k], raw),
        forall|j: int|
            0 <= j < raw.len() && !is_blank(raw[j]) ==> normalized(raw).contains(
                normal_form(#[trigger] raw[j]),
            ),
{
    let set = normalized(raw);
    lemma_normalized(raw);
    assert forall|j: int| 0 <= j < raw.len() && !is_blank(raw[j]) implies set.contains(
        normal_form(#[trigger] raw[j]),
    ) by {
        lemma_normal_form(raw[j]);
    }
    assert forall|k: int| 0 <= k < set.len() implies #[trigger] stems_from(set[k], raw) by {
        assert(set.contains(set[k]));
    }
    if forall|j: int| 0 <= j < raw.len() ==> is_blank(#[trigger] raw[j]) {
        lemma_blank_list_normalizes_to_nothing(raw);
    }
    if set.len() == 0 {
        assert forall|j: int| 0 <= j < raw.len() implies is_blank(#[trigger] raw[j]) by {
            if !is_blank(raw[j]) {
                assert(set.contains(normal_form(raw[j])));
            }
        }
    }
}

/// A canonical accession is its own canonical form.
pub proof fn lemma_normal_form_of_canonical(accession: Seq<char>)
    requires
        is_canonical(accession),
    ensures
        normal_form(accession) == accession,
{
    assert(skip_spaces(accession) == accession);
    assert(drop_trailing_spaces(accession) == accession);
    assert(normal_form(accession) =~= accession);
}

/// Normalizing what is already normalized changes nothing.
pub proof fn lemma_normal_form_idempotent(raw: Seq<char>)
    ensures
        normal_form(normal_form(raw)) == normal_form(raw),
{
    lemma_normal_form(raw);
    if normal_form(raw).len() > 0 {
        lemma_normal_form_of_canonical(normal_form(raw));
    } else {
        assert(normal_form(Seq::<char>::empty()) =~= Seq::<char>::empty());
    }
}

/// Two requests of one run never share a file: within the directory of an
/// accession, different formats give different file names.
pub proof fn lemma_file_names_distinct(accession: Seq<char>, a: Format, b: Format)
    requires
        a != b,
    ensures
        file_name_of(accession, a) != file_name_of(accession, b),
{
    reveal_strlit(".fasta");
    reveal_strlit(".gb");
    reveal_strlit(".gff3");
    assert(".fasta"@.len() == 6 && ".gb"@.len() == 3 && ".gff3"@.len() == 5);
    assert(file_name_of(accession, a).len() == accession.len() + a.extension().len());
    assert(file_name_of(accession, b).len() == accession.len() + b.extension().len());
}

} // verus!
