//! A version of a package as lines of plain text.

use vstd::prelude::*;
use crate::distribution::tag::tag_text;
use crate::distribution::wheel::wheel_name_from_text;
use crate::text::{
    ascii_lowercase, ascii_lowercase_of, chars_of, find_from, first_index, join, join_with,
    push_char, str_eq, string_of, trim, trimmed,
};
use crate::ui::{icon_of, iconify_url, summarize_artifacts, summary_of};
use crate::warehouse::{
    keywords_of, package_type_of, DistributionUrl, PackageType, PackageVersion,
};

verus! {

/// The instant that `text` names, as seconds since the first of January
/// 1970 and nanoseconds of the second, where `chrono` reads `text` as a
/// date and time with an offset.
pub uninterp spec fn timestamp_of(text: Seq<char>) -> Option<(int, int)>;

/// The instant that `text` names, written as `format` says.
pub uninterp spec fn timestamp_text(text: Seq<char>, format: Seq<char>) -> Seq<char>;

/// Reads a date and time.
///
/// Trusted: parsing a `chrono::DateTime<Utc>` answers from the text
/// alone, and `timestamp` and `timestamp_subsec_nanos` from the instant.
#[verifier::external_body]
fn read_timestamp(text: &str) -> (r: Option<(i64, u32)>)
    ensures
        match r {
            Some((seconds, nanoseconds)) => timestamp_of(text@) == Some(
                (seconds as int, nanoseconds as int),
            ),
            None => timestamp_of(text@) is None,
        },
{
    text.parse::<chrono::DateTime<chrono::Utc>>().ok().map(
        |t| (t.timestamp(), t.timestamp_subsec_nanos()),
    )
}

/// Writes a date and time down to the second.
///
/// Trusted: `chrono::DateTime::format` writes the instant as the format
/// says; with this format, which holds no specifier that it does not
/// know, it does not fail.
#[verifier::external_body]
fn write_timestamp(text: &str, format: &str) -> (r: String)
    requires
        timestamp_of(text@) is Some,
        format@ == "%Y-%m-%dT%H:%M:%S"@,
    ensures
        r@ == timestamp_text(text@, format@),
{
    text.parse::<chrono::DateTime<chrono::Utc>>().unwrap().format(format).to_string()
}

/// Whether the instant `a` is before the instant `b`.
pub open spec fn instant_before(a: (int, int), b: (int, int)) -> bool {
    a.0 < b.0 || (a.0 == b.0 && a.1 < b.1)
}

/// Whether `files[i]` is the first of the files that were uploaded
/// earliest, among those whose time of upload can be read.
pub open spec fn is_earliest(files: Seq<DistributionUrl>, i: int) -> bool {
    &&& 0 <= i < files.len()
    &&& timestamp_of(files[i].upload_time_iso_8601@) is Some
    &&& forall|j: int|
        0 <= j < files.len() && timestamp_of((#[trigger] files[j]).upload_time_iso_8601@) is Some
            ==> {
            let mine = timestamp_of(files[i].upload_time_iso_8601@).unwrap();
            let other = timestamp_of(files[j].upload_time_iso_8601@).unwrap();
            !instant_before(other, mine) && (j < i ==> instant_before(mine, other))
        }
}

/// The time at which the first file of `files` was uploaded, down to the
/// second; `None` where no file's time of upload can be read.
pub fn earliest_upload(files: &Vec<DistributionUrl>) -> (r: Option<String>)
    ensures
        match r {
            Some(time) => exists|i: int|
                is_earliest(files@, i) && time@ == timestamp_text(
                    files@[i].upload_time_iso_8601@,
                    "%Y-%m-%dT%H:%M:%S"@,
                ),
            None => forall|i: int|
                0 <= i < files.len() ==> timestamp_of(
                    (#[trigger] files@[i]).upload_time_iso_8601@,
                ) is None,
        },
{
    let mut best: Option<(usize, i64, u32)> = None;
    let mut i: usize = 0;
    while i < files.len()
        invariant
            0 <= i <= files.len(),
            match best {
                Some((b, seconds, nanoseconds)) => {
                    &&& b < i
                    &&& timestamp_of(files@[b as int].upload_time_iso_8601@) == Some(
                        (seconds as int, nanoseconds as int),
                    )
                    &&& forall|j: int|
                        0 <= j < i && timestamp_of(
                            (#[trigger] files@[j]).upload_time_iso_8601@,
                        ) is Some ==> {
                            let mine = (seconds as int, nanoseconds as int);
                            let other = timestamp_of(files@[j].upload_time_iso_8601@).unwrap();
                            !instant_before(other, mine) && (j < b ==> instant_before(mine, other))
                        }
                },
                None => forall|j: int|
                    0 <= j < i ==> timestamp_of(
                        (#[trigger] files@[j]).upload_time_iso_8601@,
                    ) is None,
            },
        decreases files.len() - i,
    {
        match read_timestamp(files[i].upload_time_iso_8601.as_str()) {
            Some((seconds, nanoseconds)) => {
                let take = match best {
                    Some((_, s, n)) => seconds < s || (seconds == s && nanoseconds < n),
                    None => true,
                };
                if take {
                    best = Some((i, seconds, nanoseconds));
                }
            },
            None => {},
        }
        i += 1;
    }
    match best {
        Some((b, _, _)) => {
            assert(is_earliest(files@, b as int));
            Some(write_timestamp(files[b].upload_time_iso_8601.as_str(), "%Y-%m-%dT%H:%M:%S"))
        },
        None => None,
    }
}

/// The text of `text`, or the empty text where there is none.
pub open spec fn or_empty(text: Option<String>) -> Seq<char> {
    match text {
        Some(t) => t@,
        None => Seq::empty(),
    }
}

/// `text` without its `"`.
pub open spec fn unquoted(text: Seq<char>) -> Seq<char> {
    text.filter(|c: char| c != '"')
}

/// `text` without its `"`.
pub fn unquote(text: &str) -> (r: String)
    ensures
        r@ == unquoted(text@),
{
    let v = chars_of(text);
    let ghost keep = |c: char| c != '"';
    let mut r = String::new();
    let mut i: usize = 0;
    proof {
        reveal(Seq::filter);
        assert(v@.take(0).filter(keep) =~= Seq::<char>::empty());
    }
    while i < v.len()
        invariant
            0 <= i <= v.len(),
            keep == |c: char| c != '"',
            r@ == v@.take(i as int).filter(keep),
        decreases v.len() - i,
    {
        proof {
            assert(v@.take(i + 1) =~= v@.take(i as int).push(v@[i as int]));
            v@.take(i as int).lemma_filter_push(v@[i as int], keep);
        }
        if v[i] != '"' {
            push_char(&mut r, v[i]);
        }
        i += 1;
    }
    assert(v@.take(v.len() as int) =~= v@);
    r
}

/// Whether a content type is Markdown: whether what stands before its
/// first `;`, without white space around it and in lower case, is
/// `text/markdown`.
pub open spec fn is_markdown_type(content_type: Seq<char>) -> bool {
    ascii_lowercase(trimmed(content_type.take(first_index(content_type, ';')))) == "text/markdown"@
}

/// Whether the readme of a version is given as Markdown.
pub fn is_markdown(version: &PackageVersion) -> (r: bool)
    ensures
        r == match version.description_content_type {
            Some(content_type) => is_markdown_type(content_type@),
            None => false,
        },
{
    match &version.description_content_type {
        Some(content_type) => {
            let v = chars_of(content_type.as_str());
            let end = find_from(&v, 0, ';');
            assert(v@.skip(0) =~= v@);
            assert(v@.take(end as int) =~= v@.subrange(0, end as int));
            let essence = trim(string_of(&v, 0, end).as_str());
            str_eq(ascii_lowercase_of(essence.as_str()).as_str(), "text/markdown")
        },
        None => false,
    }
}

/// The heading of a version: `<name>@<version>`, and ` [YANKED]` where
/// the version is yanked for a reason.
pub open spec fn name_version_line(version: PackageVersion) -> Seq<char> {
    version.name@ + "@"@ + version.version@ + if version.yanked_reason is Some {
        " [YANKED]"@
    } else {
        Seq::empty()
    }
}

/// The heading of a version.
pub fn format_name_version(version: &PackageVersion) -> (r: String)
    ensures
        r@ == name_version_line(*version),
{
    let mut line = version.name.clone();
    line.append("@");
    line.append(version.version.as_str());
    if version.yanked_reason.is_some() {
        line.append(" [YANKED]");
    } else {
        assert(line@ + Seq::<char>::empty() =~= line@);
    }
    line
}

/// The summary of a version, indented.
pub fn format_summary(version: &PackageVersion) -> (r: String)
    ensures
        r@ == "  "@ + or_empty(version.summary),
{
    let mut line = "  ".to_owned();
    match &version.summary {
        Some(summary) => line.append(summary.as_str()),
        None => {
            assert(line@ + Seq::<char>::empty() =~= line@);
        },
    }
    line
}

/// The license of a version and who holds the copyright, indented: the
/// license, then ` © ` and the author's address without its `"`; either
/// alone where the other is not given, and nothing where neither is.
pub open spec fn license_line(version: PackageVersion) -> Seq<char> {
    match (version.license, version.author_email) {
        (Some(license), Some(author)) => "  "@ + license@ + " © "@ + unquoted(author@),
        (Some(license), None) => "  "@ + license@,
        (None, Some(author)) => "  © "@ + unquoted(author@),
        (None, None) => Seq::empty(),
    }
}

/// The license of a version and who holds the copyright.
pub fn format_license_copyright(version: &PackageVersion) -> (r: String)
    ensures
        r@ == license_line(*version),
{
    match (&version.license, &version.author_email) {
        (Some(license), Some(author)) => {
            let mut line = "  ".to_owned();
            line.append(license.as_str());
            line.append(" © ");
            line.append(unquote(author.as_str()).as_str());
            line
        },
        (Some(license), None) => {
            let mut line = "  ".to_owned();
            line.append(license.as_str());
            line
        },
        (None, Some(author)) => {
            let mut line = "  © ".to_owned();
            line.append(unquote(author.as_str()).as_str());
            line
        },
        (None, None) => String::new(),
    }
}

/// The line for a link: its icon and its address.
pub open spec fn link_line(link: (Seq<char>, Seq<char>)) -> Seq<char> {
    "  "@ + icon_of(ascii_lowercase(link.0)) + "  "@ + link.1
}

/// The links of a version: a heading, the link to the package index, and
/// the links `links` in the order given, each under the icon of its kind.
pub fn format_urls(version: &PackageVersion, links: &Vec<(String, String)>) -> (r: Vec<String>)
    ensures
        r.deep_view() == seq!["Links"@, link_line(("Package Index"@, version.project_url@))]
            + links.deep_view().map_values(|link: (Seq<char>, Seq<char>)| link_line(link)),
{
    let mut lines: Vec<String> = Vec::new();
    lines.push("Links".to_owned());
    let mut first = "  ".to_owned();
    first.append(iconify_url("Package Index").as_str());
    first.append("  ");
    first.append(version.project_url.as_str());
    lines.push(first);
    let ghost head = seq!["Links"@, link_line(("Package Index"@, version.project_url@))];
    assert(lines.deep_view() =~= head);
    let mut i: usize = 0;
    while i < links.len()
        invariant
            0 <= i <= links.len(),
            lines.len() == 2 + i,
            lines.deep_view().take(2) == head,
            forall|j: int|
                2 <= j < 2 + i ==> (#[trigger] lines[j])@ == link_line(links[j - 2].deep_view()),
        decreases links.len() - i,
    {
        let ghost before = lines.deep_view();
        let mut line = "  ".to_owned();
        line.append(iconify_url(links[i].0.as_str()).as_str());
        line.append("  ");
        line.append(links[i].1.as_str());
        lines.push(line);
        assert(lines.deep_view().take(2) =~= before.take(2));
        i += 1;
    }
    assert(lines.deep_view() =~= head + links.deep_view().map_values(
        |link: (Seq<char>, Seq<char>)| link_line(link),
    )) by {
        let all = lines.deep_view();
        let want = head + links.deep_view().map_values(
            |link: (Seq<char>, Seq<char>)| link_line(link),
        );
        assert forall|j: int| 0 <= j < all.len() implies all[j] == want[j] by {
            if j < 2 {
                assert(all[j] == all.take(2)[j]);
            } else {
                assert(all[j] == lines[j]@);
            }
        }
    }
    lines
}

/// `text`, indented.
pub open spec fn indented(text: Seq<char>) -> Seq<char> {
    "  "@ + text
}

/// A heading, and under it each item indented.
pub open spec fn under_heading(heading: Seq<char>, items: Seq<Seq<char>>) -> Seq<Seq<char>> {
    seq![heading] + items.map_values(|item: Seq<char>| indented(item))
}

/// The lines of a list under a heading: the heading, then each item
/// indented; no line at all where the list is empty.
pub open spec fn listing(heading: Seq<char>, items: Seq<Seq<char>>) -> Seq<Seq<char>> {
    if items.len() == 0 {
        Seq::empty()
    } else {
        under_heading(heading, items)
    }
}

/// A heading, and under it each item indented.
pub fn format_under_heading(heading: &str, items: &Vec<String>) -> (r: Vec<String>)
    ensures
        r.deep_view() == under_heading(heading@, items.deep_view()),
{
    let mut lines: Vec<String> = Vec::new();
    lines.push(heading.to_owned());
    let mut i: usize = 0;
    while i < items.len()
        invariant
            0 <= i <= items.len(),
            lines.len() == 1 + i,
            lines[0]@ == heading@,
            forall|j: int| 1 <= j < 1 + i ==> (#[trigger] lines[j])@ == indented(items[j - 1]@),
        decreases items.len() - i,
    {
        let mut line = "  ".to_owned();
        line.append(items[i].as_str());
        lines.push(line);
        i += 1;
    }
    assert(lines.deep_view() =~= seq![heading@] + items.deep_view().map_values(
        |item: Seq<char>| indented(item),
    )) by {
        let all = lines.deep_view();
        assert forall|j: int| 1 <= j < all.len() implies all[j] == indented(
            items.deep_view()[j - 1],
        ) by {
            assert(all[j] == lines[j]@);
        }
    }
    lines
}

/// The lines of a list under a heading; no line at all where the list is
/// empty.
pub fn format_listing(heading: &str, items: &Vec<String>) -> (r: Vec<String>)
    ensures
        r.deep_view() == listing(heading@, items.deep_view()),
{
    if items.len() == 0 {
        let lines: Vec<String> = Vec::new();
        assert(lines.deep_view() =~= Seq::<Seq<char>>::empty());
        lines
    } else {
        format_under_heading(heading, items)
    }
}

/// The keywords of a version in one line under their heading; no line at
/// all where it has none.
pub fn format_keywords(version: &PackageVersion) -> (r: Vec<String>)
    ensures
        r.deep_view() == ({
            let keywords = match version.keywords {
                Some(text) => keywords_of(text@),
                None => Seq::empty(),
            };
            if keywords.len() == 0 {
                Seq::empty()
            } else {
                under_heading("Keywords"@, seq![join(keywords, ", "@)])
            }
        }),
{
    let keywords = version.keywords();
    if keywords.len() == 0 {
        let lines: Vec<String> = Vec::new();
        assert(lines.deep_view() =~= Seq::<Seq<char>>::empty());
        return lines;
    }
    let mut line: Vec<String> = Vec::new();
    line.push(join_with(&keywords, ", "));
    assert(line.deep_view() =~= seq![join(keywords.deep_view(), ", "@)]);
    format_under_heading("Keywords", &line)
}

/// The classifiers of a version under their heading.
pub fn format_classifiers(version: &PackageVersion) -> (r: Vec<String>)
    ensures
        r.deep_view() == listing("Classifiers"@, version.classifiers.deep_view()),
{
    format_listing("Classifiers", &version.classifiers)
}

/// The names by which a wheel can be imported, under their heading.
pub fn format_packages(names: &Vec<String>) -> (r: Vec<String>)
    ensures
        r.deep_view() == under_heading("Importable Packages"@, names.deep_view()),
{
    format_under_heading("Importable Packages", names)
}

/// The commands that a wheel installs, under their heading.
pub fn format_executables(names: &Vec<String>) -> (r: Vec<String>)
    ensures
        r.deep_view() == under_heading("Executable Commands"@, names.deep_view()),
{
    format_under_heading("Executable Commands", names)
}

/// What a version depends on: the Python that it requires, where it says
/// so, and then the distributions.
pub open spec fn dependencies_of(version: PackageVersion) -> Seq<Seq<char>> {
    (match version.requires_python {
        Some(python) => seq!["python"@ + python@],
        None => Seq::empty(),
    }) + version.requires_dist.deep_view()
}

/// The dependencies of a version under their heading.
pub fn format_dependencies(version: &PackageVersion) -> (r: Vec<String>)
    ensures
        r.deep_view() == listing("Dependencies"@, dependencies_of(*version)),
{
    let mut items: Vec<String> = Vec::new();
    match &version.requires_python {
        Some(python) => {
            let mut item = "python".to_owned();
            item.append(python.as_str());
            items.push(item);
        },
        None => {},
    }
    let ghost head = items.deep_view();
    assert(head =~= match version.requires_python {
        Some(python) => seq!["python"@ + python@],
        None => Seq::empty(),
    });
    let mut i: usize = 0;
    while i < version.requires_dist.len()
        invariant
            0 <= i <= version.requires_dist.len(),
            items.len() == head.len() + i,
            items.deep_view().take(head.len() as int) == head,
            forall|j: int|
                head.len() <= j < head.len() + i ==> (#[trigger] items[j])@
                    == version.requires_dist[j - head.len()]@,
        decreases version.requires_dist.len() - i,
    {
        let ghost before = items.deep_view();
        items.push(version.requires_dist[i].clone());
        assert(items.deep_view().take(head.len() as int) =~= before.take(head.len() as int));
        i += 1;
    }
    assert(items.deep_view() =~= dependencies_of(*version)) by {
        let all = items.deep_view();
        let want = dependencies_of(*version);
        assert forall|j: int| 0 <= j < all.len() implies all[j] == want[j] by {
            if j < head.len() {
                assert(all[j] == all.take(head.len() as int)[j]);
            } else {
                assert(all[j] == items[j]@);
            }
        }
    }
    format_listing("Dependencies", &items)
}

/// What names a file in a listing: `sdist` for a source distribution, the
/// compatibility tag for a wheel, nothing for any other file; `None` for
/// a file that is given as a wheel and whose name is not that of one.
pub open spec fn file_label(file: DistributionUrl) -> Option<Seq<char>> {
    match package_type_of(file.packagetype@) {
        PackageType::SourceArchive => Some("sdist"@),
        PackageType::BuiltArtifact => match wheel_name_from_text(file.filename@) {
            Some(name) => Some(tag_text(name.compatibility_tag)),
            None => None,
        },
        PackageType::Other => Some(Seq::empty()),
    }
}

/// The line for a file with the label `label`, in the degree of detail
/// `details`: the label; from degree three on the address as well, and
/// beyond that the time of upload between the two.  Nothing for a file
/// without a label.
pub open spec fn file_line(file: DistributionUrl, label: Seq<char>, details: u8) -> Seq<char> {
    if label.len() == 0 {
        Seq::empty()
    } else if details > 3 {
        "  "@ + label + " "@ + file.upload_time@ + " "@ + file.url@
    } else if details == 3 {
        "  "@ + label + " "@ + file.url@
    } else {
        "  "@ + label
    }
}

/// The line for `dist` in the degree of detail `details`; `None` where
/// `dist` is given as a wheel and its name is not that of one.
pub fn format_dist(dist: &DistributionUrl, details: u8) -> (r: Option<String>)
    ensures
        r.deep_view() == match file_label(*dist) {
            Some(label) => Some(file_line(*dist, label, details)),
            None => None,
        },
{
    let label = match dist.kind() {
        PackageType::SourceArchive => "sdist".to_owned(),
        PackageType::BuiltArtifact => match dist.filename() {
            Ok(name) => name.compatibility_tag().to_string(),
            Err(_) => { return None; },
        },
        PackageType::Other => String::new(),
    };
    if label.as_str().unicode_len() == 0 {
        return Some(String::new());
    }
    let mut line = "  ".to_owned();
    line.append(label.as_str());
    if details > 3 {
        line.append(" ");
        line.append(dist.upload_time.as_str());
        line.append(" ");
        line.append(dist.url.as_str());
    } else if details == 3 {
        line.append(" ");
        line.append(dist.url.as_str());
    }
    Some(line)
}

/// Whether a file of `files` is a source distribution or given as a wheel.
pub open spec fn has_distributions(files: Seq<DistributionUrl>) -> bool {
    exists|i: int|
        0 <= i < files.len() && package_type_of((#[trigger] files[i]).packagetype@)
            != PackageType::Other
}

/// Whether `lines` are the lines for `files` in the degree of detail
/// `details`, one for each file.
pub open spec fn are_file_lines(
    lines: Seq<Seq<char>>,
    files: Seq<DistributionUrl>,
    details: u8,
) -> bool {
    &&& lines.len() == files.len()
    &&& forall|i: int|
        0 <= i < files.len() ==> match file_label(#[trigger] files[i]) {
            Some(label) => lines[i] == file_line(files[i], label, details),
            None => false,
        }
}

/// Whether `r` is what is shown of the files `files` in the degree of
/// detail `details`: nothing where none of them is a source distribution
/// or a wheel; else a heading, and under it the summary of the files for
/// degree one, and a line for each file for any other degree.  `None`
/// where a file is given as a wheel and its name is not that of one.
pub open spec fn is_distributions_text(
    r: Option<Seq<Seq<char>>>,
    files: Seq<DistributionUrl>,
    details: u8,
) -> bool {
    if !has_distributions(files) {
        r == Some(Seq::<Seq<char>>::empty())
    } else if details == 1 {
        r == match summary_of(files) {
            Some(summary) => Some(seq!["Distribution Types"@, "  "@ + summary]),
            None => None,
        }
    } else {
        match r {
            Some(lines) => lines.len() > 0 && lines[0] == "Distribution Types"@ && are_file_lines(
                lines.skip(1),
                files,
                details,
            ),
            None => exists|i: int|
                0 <= i < files.len() && file_label(#[trigger] files[i]) is None,
        }
    }
}

/// What is shown of the files `distributions` in the degree of detail
/// `details`.
pub fn format_distributions(distributions: &Vec<DistributionUrl>, details: u8) -> (r: Option<
    Vec<String>,
>)
    ensures
        is_distributions_text(r.deep_view(), distributions@, details),
{
    let mut any = false;
    let mut i: usize = 0;
    while i < distributions.len()
        invariant
            0 <= i <= distributions.len(),
            any == exists|j: int|
                0 <= j < i && package_type_of((#[trigger] distributions@[j]).packagetype@)
                    != PackageType::Other,
        decreases distributions.len() - i,
    {
        if distributions[i].kind() != PackageType::Other {
            any = true;
        }
        i += 1;
    }
    let mut lines: Vec<String> = Vec::new();
    if !any {
        assert(lines.deep_view() =~= Seq::<Seq<char>>::empty());
        return Some(lines);
    }
    lines.push("Distribution Types".to_owned());
    if details == 1 {
        let summary = match summarize_artifacts(distributions) {
            Some(summary) => summary,
            None => { return None; },
        };
        let mut line = "  ".to_owned();
        line.append(summary.as_str());
        lines.push(line);
        assert(lines.deep_view() =~= seq!["Distribution Types"@, "  "@ + summary@]);
        return Some(lines);
    }
    let mut i: usize = 0;
    assert(are_file_lines(lines.deep_view().skip(1), distributions@.take(0), details));
    while i < distributions.len()
        invariant
            0 <= i <= distributions.len(),
            lines.len() == 1 + i,
            lines[0]@ == "Distribution Types"@,
            has_distributions(distributions@),
            details != 1,
            are_file_lines(lines.deep_view().skip(1), distributions@.take(i as int), details),
        decreases distributions.len() - i,
    {
        let line = match format_dist(&distributions[i], details) {
            Some(line) => line,
            None => {
                assert(file_label(distributions@[i as int]) is None);
                return None;
            },
        };
        let ghost before = lines.deep_view().skip(1);
        lines.push(line);
        proof {
            let now = lines.deep_view().skip(1);
            let files = distributions@.take(i + 1);
            assert(now =~= before.push(line@));
            assert forall|k: int| 0 <= k < files.len() implies match file_label(
                #[trigger] files[k],
            ) {
                Some(label) => now[k] == file_line(files[k], label, details),
                None => false,
            } by {
                if k < i {
                    assert(files[k] == distributions@.take(i as int)[k]);
                    assert(now[k] == before[k]);
                } else {
                    assert(files[k] == distributions@[i as int]);
                    assert(now[k] == line@);
                }
            }
        }
        i += 1;
    }
    assert(distributions@.take(distributions.len() as int) =~= distributions@);
    Some(lines)
}

/// Whether `r` is the line that tells the time of a version: for the file
/// `distribution`, where one is given, its label and the time of its
/// upload; else the earliest time at which a file of the version was
/// uploaded, and nothing where no such time can be read.  `None` where
/// `distribution` is given as a wheel and its name is not that of one.
pub open spec fn is_time_line(
    r: Option<Seq<char>>,
    version: PackageVersion,
    distribution: Option<DistributionUrl>,
) -> bool {
    match distribution {
        Some(file) => r == match file_label(file) {
            Some(label) => Some(file_line(file, label, 0) + "@"@ + file.upload_time@),
            None => None,
        },
        None => match r {
            Some(line) => if line.len() == 0 {
                forall|i: int|
                    0 <= i < version.urls@.len() ==> timestamp_of(
                        (#[trigger] version.urls@[i]).upload_time_iso_8601@,
                    ) is None
            } else {
                exists|i: int|
                    is_earliest(version.urls@, i) && line == "  "@ + timestamp_text(
                        version.urls@[i].upload_time_iso_8601@,
                        "%Y-%m-%dT%H:%M:%S"@,
                    )
            },
            None => false,
        },
    }
}

/// The line that tells the time of a version.
pub fn format_dist_time(version: &PackageVersion, distribution: Option<&DistributionUrl>) -> (r:
    Option<String>)
    ensures
        is_time_line(
            r.deep_view(),
            *version,
            match distribution {
                Some(file) => Some(*file),
                None => None,
            },
        ),
{
    match distribution {
        Some(file) => match format_dist(file, 0) {
            Some(mut line) => {
                line.append("@");
                line.append(file.upload_time.as_str());
                Some(line)
            },
            None => None,
        },
        None => match earliest_upload(&version.urls) {
            Some(time) => {
                let mut line = "  ".to_owned();
                line.append(time.as_str());
                proof {
                    reveal_strlit("  ");
                }
                Some(line)
            },
            None => Some(String::new()),
        },
    }
}

/// The versions of a package in one line, under the package's name where
/// that is shown.
pub fn format_package_versions(name: &str, versions: &Vec<String>, show_name: bool) -> (r: String)
    ensures
        r@ == (if show_name {
            name@ + "\n"@
        } else {
            Seq::empty()
        }) + join(versions.deep_view(), ", "@),
{
    let mut text = String::new();
    if show_name {
        text.append(name);
        text.append("\n");
        assert(text@ =~= name@ + "\n"@);
    }
    let ghost head = text@;
    text.append(join_with(versions, ", ").as_str());
    text
}

} // verus!
