use vstd::prelude::*;

verus! {

/// The closed set of record formats that can be requested.
#[derive(Clone, Copy, Debug, PartialEq, Eq, Hash, Structural)]
pub enum Format {
    Fasta,
    Genbank,
    Gff3,
}

impl Format {
    /// The token that selects this format in a request.
    pub open spec fn report_param(self) -> Seq<char> {
        match self {
            Format::Fasta => "fasta"@,
            Format::Genbank => "genbank"@,
            Format::Gff3 => "gff3"@,
        }
    }

    /// The suffix of the files that hold records of this format.
    pub open spec fn extension(self) -> Seq<char> {
        match self {
            Format::Fasta => ".fasta"@,
            Format::Genbank => ".gb"@,
            Format::Gff3 => ".gff3"@,
        }
    }

    /// The text that every genuine body of this format begins with, once
    /// leading whitespace is set aside.
    pub open spec fn marker(self) -> Seq<char> {
        match self {
            Format::Fasta => ">"@,
            Format::Genbank => "LOCUS"@,
            Format::Gff3 => "##gff-version"@,
        }
    }

    pub fn as_report_param(&self) -> (token: &str)
        ensures
            token@ == self.report_param(),
    {
        match self {
            Format::Fasta => "fasta",
            Format::Genbank => "genbank",
            Format::Gff3 => "gff3",
        }
    }

    pub fn file_extension(&self) -> (suffix: &str)
        ensures
            suffix@ == self.extension(),
    {
        match self {
            Format::Fasta => ".fasta",
            Format::Genbank => ".gb",
            Format::Gff3 => ".gff3",
        }
    }

    pub fn content_prefix(&self) -> (prefix: &str)
        ensures
            prefix@ == self.marker(),
    {
        match self {
            Format::Fasta => ">",
            Format::Genbank => "LOCUS",
            Format::Gff3 => "##gff-version",
        }
    }
}

/// No two formats share a file suffix, so the files of one accession never
/// collide.
pub proof fn lemma_extension_injective(a: Format, b: Format)
    requires
        a.extension() == b.extension(),
    ensures
        a == b,
{
    reveal_strlit(".fasta");
    reveal_strlit(".gb");
    reveal_strlit(".gff3");
    assert(".fasta"@.len() == 6 && ".gb"@.len() == 3 && ".gff3"@.len() == 5);
}

/// No two formats share a request token.
pub proof fn lemma_report_param_injective(a: Format, b: Format)
    requires
        a.report_param() == b.report_param(),
    ensures
        a == b,
{
    reveal_strlit("fasta");
    reveal_strlit("genbank");
    reveal_strlit("gff3");
    assert("fasta"@.len() == 5 && "genbank"@.len() == 7 && "gff3"@.len() == 4);
}

/// Whether `format` occurs among `seen`.
pub fn format_listed(seen: &Vec<Format>, format: Format) -> (found: bool)
    ensures
        found == seen@.contains(format),
{
    let mut i: usize = 0;
    while i < seen.len()
        invariant
            i <= seen.len(),
            !seen@.take(i as int).contains(format),
        decreases seen.len() - i,
    {
        if seen[i] == format {
            return true;
        }
        proof {
            assert(seen@.take(i + 1) =~= seen@.take(i as int).push(seen@[i as int]));
        }
        i += 1;
    }
    proof {
        assert(seen@.take(i as int) =~= seen@);
    }
    false
}

/// `list` with every repeated element dropped, the first occurrence of each
/// kept in place.
pub open spec fn first_occurrences<T>(list: Seq<T>) -> Seq<T>
    decreases list.len(),
{
    if list.len() == 0 {
        Seq::empty()
    } else {
        let earlier = first_occurrences(list.drop_last());
        if earlier.contains(list.last()) {
            earlier
        } else {
            earlier.push(list.last())
        }
    }
}

/// The selected formats, each once, in the order in which they were first
/// named.
pub fn dedup_formats(selected: &Vec<Format>) -> (formats: Vec<Format>)
    ensures
        formats@ == first_occurrences(selected@),
        formats@.no_duplicates(),
        forall|f: Format| #[trigger] formats@.contains(f) <==> selected@.contains(f),
{
    proof {
        lemma_first_occurrences(selected@);
    }
    let mut formats: Vec<Format> = Vec::new();
    let mut i: usize = 0;
    while i < selected.len()
        invariant
            i <= selected.len(),
            formats@ == first_occurrences(selected@.take(i as int)),
        decreases selected.len() - i,
    {
        proof {
            assert(selected@.take(i + 1).drop_last() =~= selected@.take(i as int));
        }
        let format = selected[i];
        if !format_listed(&formats, format) {
            formats.push(format);
        }
        i += 1;
    }
    proof {
        assert(selected@.take(i as int) =~= selected@);
    }
    formats
}

/// What `first_occurrences` keeps: nothing twice, exactly the elements of the
/// list, and never more than the list holds.
pub proof fn lemma_first_occurrences<T>(list: Seq<T>)
    ensures
        first_occurrences(list).no_duplicates(),
        first_occurrences(list).len() <= list.len(),
        forall|x: T| #[trigger] first_occurrences(list).contains(x) <==> list.contains(x),
    decreases list.len(),
{
    if list.len() > 0 {
        let front = list.drop_last();
        let earlier = first_occurrences(front);
        lemma_first_occurrences(front);
        let kept = first_occurrences(list);
        assert forall|x: T| #[trigger] kept.contains(x) <==> list.contains(x) by {
            if list.contains(x) {
                let k = choose|k: int| 0 <= k < list.len() && list[k] == x;
                if k < list.len() - 1 {
                    assert(front[k] == x);
                    assert(front.contains(x));
                    assert(earlier.contains(x));
                    let j = choose|j: int| 0 <= j < earlier.len() && earlier[j] == x;
                    assert(kept[j] == x);
                } else if earlier.contains(x) {
                } else {
                    assert(kept[kept.len() - 1] == x);
                }
            }
            if kept.contains(x) {
                let j = choose|j: int| 0 <= j < kept.len() && kept[j] == x;
                if j < earlier.len() {
                    assert(earlier[j] == x);
                    assert(earlier.contains(x));
                    assert(front.contains(x));
                    let k = choose|k: int| 0 <= k < front.len() && front[k] == x;
                    assert(list[k] == x);
                } else {
                    assert(list[list.len() - 1] == x);
                }
            }
        }
    }
}

/// A format that is already in the list adds nothing when it is named again.
pub proof fn lemma_repeated_selection<T>(list: Seq<T>, again: T)
    requires
        list.contains(again),
    ensures
        first_occurrences(list.push(again)) == first_occurrences(list),
{
    lemma_first_occurrences(list);
    assert(list.push(again).drop_last() =~= list);
}

/// The command-line request: the raw accessions, the output directory and
/// the formats as they were named.
#[derive(Clone, Debug)]
pub struct App {
    pub accession: Vec<String>,
    pub outdir: String,
    pub format: Vec<Format>,
}

} // verus!
