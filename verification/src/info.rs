//! What is shown of a package file on request.

use vstd::prelude::*;
use crate::numbers::{decimal, decimal_text};
use crate::verify::{absent_text, carried};

verus! {

/// What a package file says of itself.
#[derive(Debug, Clone, PartialEq, Eq)]
pub struct PackageSummary {
    pub name: String,
    pub version: String,
    pub release: String,
    pub arch: String,
    /// The installed size in bytes.
    pub size: u64,
    pub license: Option<String>,
    pub summary: Option<String>,
    /// The installed paths.
    pub files: Vec<String>,
}

/// Mathematical model of a [`PackageSummary`].
pub struct PackageSummaryModel {
    pub name: Seq<char>,
    pub version: Seq<char>,
    pub release: Seq<char>,
    pub arch: Seq<char>,
    pub size: u64,
    pub license: Option<Seq<char>>,
    pub summary: Option<Seq<char>>,
    pub files: Seq<Seq<char>>,
}

impl DeepView for PackageSummary {
    type V = PackageSummaryModel;

    open spec fn deep_view(&self) -> PackageSummaryModel {
        PackageSummaryModel {
            name: self.name@,
            version: self.version@,
            release: self.release@,
            arch: self.arch@,
            size: self.size,
            license: self.license.deep_view(),
            summary: self.summary.deep_view(),
            files: self.files.deep_view(),
        }
    }
}

impl View for PackageSummary {
    type V = PackageSummaryModel;

    open spec fn view(&self) -> PackageSummaryModel {
        self.deep_view()
    }
}

/// The first `upto` paths, each on a line of its own.
pub open spec fn file_lines(files: Seq<Seq<char>>, upto: int) -> Seq<char>
    decreases upto,
{
    if upto <= 0 || upto > files.len() {
        Seq::empty()
    } else {
        file_lines(files, upto - 1) + "  "@ + files[upto - 1] + "\n"@
    }
}

/// The head of the report: one line for each thing that the package says
/// of itself.
pub open spec fn summary_text(info: PackageSummaryModel) -> Seq<char> {
    "\nPackage Summary:\n"@ + "  Name:      "@ + info.name + "\n"@ + "  Version:   "@
        + info.version + "\n"@ + "  Release:   "@ + info.release + "\n"@ + "  Arch:      "@
        + info.arch + "\n"@ + "  Size:      "@ + decimal_text(info.size as nat)
        + " bytes (installed)\n"@ + "  License:   "@ + carried(info.license) + "\n"@
        + "  Summary:   "@ + carried(info.summary) + "\n"@
}

/// The whole report: the head, the number of files, and the files.
pub open spec fn report_text(info: PackageSummaryModel) -> Seq<char> {
    summary_text(info) + "\nFiles ("@ + decimal_text(info.files.len()) + "):\n"@ + file_lines(
        info.files,
        info.files.len() as int,
    )
}

/// The line that announces which file is looked at.
pub fn inspecting_line(path: &str) -> (r: String)
    ensures
        r@ == "Inspecting: "@ + path@,
{
    let mut out = "Inspecting: ".to_owned();
    out.append(path);
    out
}

/// The text of an optional entry.
fn shown(text: &Option<String>) -> (r: &str)
    ensures
        r@ == carried(text.deep_view()),
{
    proof {
        reveal_strlit("N/A");
        assert("N/A"@ =~= absent_text());
    }
    match text {
        Some(t) => t.as_str(),
        None => "N/A",
    }
}

/// The report on a package file.
pub fn report(info: &PackageSummary) -> (r: String)
    ensures
        r@ == report_text(info@),
{
    let mut out = "\nPackage Summary:\n".to_owned();
    out.append("  Name:      ");
    out.append(info.name.as_str());
    out.append("\n");
    out.append("  Version:   ");
    out.append(info.version.as_str());
    out.append("\n");
    out.append("  Release:   ");
    out.append(info.release.as_str());
    out.append("\n");
    out.append("  Arch:      ");
    out.append(info.arch.as_str());
    out.append("\n");
    out.append("  Size:      ");
    let size = decimal(info.size);
    out.append(size.as_str());
    out.append(" bytes (installed)\n");
    out.append("  License:   ");
    out.append(shown(&info.license));
    out.append("\n");
    out.append("  Summary:   ");
    out.append(shown(&info.summary));
    out.append("\n");
    assert(out@ =~= summary_text(info@));
    out.append("\nFiles (");
    let count = decimal(info.files.len() as u64);
    out.append(count.as_str());
    out.append("):\n");
    let ghost head = out@;
    let ghost files = info.files.deep_view();
    let mut i: usize = 0;
    assert(out@ =~= head + file_lines(files, 0));
    while i < info.files.len()
        invariant
            i <= info.files.len(),
            files == info.files.deep_view(),
            out@ == head + file_lines(files, i as int),
        decreases info.files.len() - i,
    {
        out.append("  ");
        out.append(info.files[i].as_str());
        out.append("\n");
        assert(files[i as int] == info.files[i as int]@);
        assert(out@ =~= head + file_lines(files, i + 1));
        i += 1;
    }
    out
}

} // verus!
