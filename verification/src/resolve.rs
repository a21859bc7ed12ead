//! Which entries a request names: a file stands for itself, a directory
//! for its children, hidden ones only on demand.

use vstd::prelude::*;

verus! {

/// One child of a directory: its file name, and the path under which it
/// is reached.
#[derive(Clone, Debug, PartialEq, Eq)]
pub struct Child {
    pub name: String,
    pub path: String,
}

/// A child as a mathematical value.
pub struct ChildView {
    pub name: Seq<char>,
    pub path: Seq<char>,
}

impl View for Child {
    type V = ChildView;

    open spec fn view(&self) -> ChildView {
        ChildView { name: self.name@, path: self.path@ }
    }
}

impl DeepView for Child {
    type V = ChildView;

    open spec fn deep_view(&self) -> ChildView {
        self@
    }
}

/// What the file system answered about a requested path.
#[derive(Clone, Debug, PartialEq, Eq)]
pub enum Probe {
    /// Its metadata could not be read; `message` says why.
    Unreadable { message: String },
    /// It is a regular file.
    File,
    /// It is a directory with these children, in the order in which the
    /// file system gave them. `None` stands for a child that could not be
    /// read.
    Directory { children: Vec<Option<Child>> },
    /// It is no regular file and could not be listed; `message` says why.
    Unlistable { message: String },
}

/// A probe as a mathematical value.
pub enum ProbeView {
    Unreadable { message: Seq<char> },
    File,
    Directory { children: Seq<Option<ChildView>> },
    Unlistable { message: Seq<char> },
}

impl View for Probe {
    type V = ProbeView;

    open spec fn view(&self) -> ProbeView {
        match self {
            Probe::Unreadable { message } => ProbeView::Unreadable { message: message@ },
            Probe::File => ProbeView::File,
            Probe::Directory { children } => ProbeView::Directory {
                children: children.deep_view(),
            },
            Probe::Unlistable { message } => ProbeView::Unlistable { message: message@ },
        }
    }
}

/// A requested path with what the file system answered about it.
#[derive(Clone, Debug, PartialEq, Eq)]
pub struct Request {
    pub path: String,
    pub probe: Probe,
}

/// A request as a mathematical value.
pub struct RequestView {
    pub path: Seq<char>,
    pub probe: ProbeView,
}

impl View for Request {
    type V = RequestView;

    open spec fn view(&self) -> RequestView {
        RequestView { path: self.path@, probe: self.probe@ }
    }
}

impl DeepView for Request {
    type V = RequestView;

    open spec fn deep_view(&self) -> RequestView {
        self@
    }
}

/// The failure that ends a resolution: `path` could not be listed.
#[derive(Clone, Debug, PartialEq, Eq)]
pub struct ResolveError {
    pub path: String,
    pub message: String,
}

/// A `ResolveError` as a mathematical value.
pub struct ResolveErrorView {
    pub path: Seq<char>,
    pub message: Seq<char>,
}

impl View for ResolveError {
    type V = ResolveErrorView;

    open spec fn view(&self) -> ResolveErrorView {
        ResolveErrorView { path: self.path@, message: self.message@ }
    }
}

/// What resolving gives: a line for each path that was skipped because its
/// metadata could not be read, and the entries found or the failure that
/// ended it.
#[derive(Debug, PartialEq, Eq)]
pub struct Resolution {
    pub diagnostics: Vec<String>,
    pub outcome: Result<Vec<String>, ResolveError>,
}

/// Whether a file name marks a hidden entry: it starts with a dot.
pub open spec fn hidden(name: Seq<char>) -> bool {
    name.len() > 0 && name[0] == '.'
}

/// Whether a child of a directory is listed: it could be read, and it is
/// not hidden unless hidden entries are asked for.
pub open spec fn listed(child: Option<ChildView>, show_hidden: bool) -> bool {
    match child {
        Some(child) => show_hidden || !hidden(child.name),
        None => false,
    }
}

/// The paths of the children that are listed, in the order of `children`.
pub open spec fn visible(children: Seq<Option<ChildView>>, show_hidden: bool) -> Seq<Seq<char>>
    decreases children.len(),
{
    if children.len() == 0 {
        Seq::empty()
    } else {
        let before = visible(children.drop_last(), show_hidden);
        if listed(children.last(), show_hidden) {
            before.push(children.last()->0.path)
        } else {
            before
        }
    }
}

/// The line that reports a path whose metadata could not be read.
pub open spec fn diagnostic(path: Seq<char>, message: Seq<char>) -> Seq<char> {
    path + seq![':', ' '] + message
}

/// The entries that one request stands for.
pub open spec fn found(request: RequestView, show_hidden: bool) -> Seq<Seq<char>> {
    match request.probe {
        ProbeView::File => seq![request.path],
        ProbeView::Directory { children } => visible(children, show_hidden),
        _ => Seq::empty(),
    }
}

/// The lines that one request is reported with.
pub open spec fn reported(request: RequestView) -> Seq<Seq<char>> {
    match request.probe {
        ProbeView::Unreadable { message } => seq![diagnostic(request.path, message)],
        _ => Seq::empty(),
    }
}

/// The failure with which one request ends the resolution, if it does.
pub open spec fn fatal(request: RequestView) -> Option<ResolveErrorView> {
    match request.probe {
        ProbeView::Unlistable { message } => Some(
            ResolveErrorView { path: request.path, message },
        ),
        _ => None,
    }
}

/// The entries of all requests, those of earlier requests first.
pub open spec fn entries(requests: Seq<RequestView>, show_hidden: bool) -> Seq<Seq<char>>
    decreases requests.len(),
{
    if requests.len() == 0 {
        Seq::empty()
    } else {
        entries(requests.drop_last(), show_hidden) + found(requests.last(), show_hidden)
    }
}

/// The lines reported for all requests, in order.
pub open spec fn diagnostics(requests: Seq<RequestView>) -> Seq<Seq<char>>
    decreases requests.len(),
{
    if requests.len() == 0 {
        Seq::empty()
    } else {
        diagnostics(requests.drop_last()) + reported(requests.last())
    }
}

/// The position of the first request that ends the resolution, if any does.
pub open spec fn first_fatal(requests: Seq<RequestView>) -> Option<int>
    decreases requests.len(),
{
    if requests.len() == 0 {
        None
    } else {
        match first_fatal(requests.drop_last()) {
            Some(k) => Some(k),
            None => if fatal(requests.last()) is Some {
                Some(requests.len() - 1)
            } else {
                None
            },
        }
    }
}

/// Tells whether `name` is the file name of a hidden entry.
pub fn is_hidden(name: &str) -> (b: bool)
    ensures
        b == hidden(name@),
{
    !name.is_empty() && name.get_char(0) == '.'
}

/// The paths of the children of a directory that are listed, in the
/// directory's order: those that could be read and, unless `show_hidden`
/// is set, are not hidden.
pub fn visible_children(children: &Vec<Option<Child>>, show_hidden: bool) -> (paths: Vec<String>)
    ensures
        paths.deep_view() == visible(children.deep_view(), show_hidden),
{
    let ghost all = children.deep_view();
    let mut paths: Vec<String> = Vec::new();
    let mut i: usize = 0;
    while i < children.len()
        invariant
            all == children.deep_view(),
            i <= children@.len(),
            paths.deep_view() == visible(all.take(i as int), show_hidden),
        decreases children@.len() - i,
    {
        proof {
            assert(all.take(i + 1).drop_last() =~= all.take(i as int));
            assert(all.take(i + 1).last() == children@[i as int].deep_view());
        }
        let ghost before = paths.deep_view();
        match &children[i] {
            Some(child) => {
                if show_hidden || !is_hidden(child.name.as_str()) {
                    paths.push(child.path.clone());
                    assert(paths.deep_view() =~= before.push(child.path@));
                }
            },
            None => {},
        }
        i += 1;
    }
    assert(all.take(children@.len() as int) =~= all);
    paths
}

/// The line that reports `path`, whose metadata could not be read for the
/// reason that `message` gives.
pub fn diagnostic_line(path: &str, message: &str) -> (line: String)
    ensures
        line@ == diagnostic(path@, message@),
{
    let mut line = path.to_owned();
    line.push(':');
    line.push(' ');
    line.append(message);
    assert(line@ =~= diagnostic(path@, message@));
    line
}

/// Resolves the requests in order. A regular file is taken as it is,
/// hidden or not. A directory gives its children, in its own order,
/// hidden ones only if `show_hidden` is set; children that could not be
/// read are passed over. A path whose metadata could not be read is
/// reported with a line and passed over. The first path that is no file
/// and could not be listed ends the resolution: the outcome is its
/// failure, and the lines are those of the requests before it.
pub fn find_files(requests: &Vec<Request>, show_hidden: bool) -> (resolution: Resolution)
    ensures
        match first_fatal(requests.deep_view()) {
            Some(k) => {
                &&& resolution.diagnostics.deep_view() == diagnostics(requests.deep_view().take(k))
                &&& resolution.outcome matches Err(error)
                &&& Some(error@) == fatal(requests.deep_view()[k])
            },
            None => {
                &&& resolution.diagnostics.deep_view() == diagnostics(requests.deep_view())
                &&& resolution.outcome matches Ok(paths)
                &&& paths.deep_view() == entries(requests.deep_view(), show_hidden)
            },
        },
{
    let ghost all = requests.deep_view();
    let mut lines: Vec<String> = Vec::new();
    let mut paths: Vec<String> = Vec::new();
    let mut i: usize = 0;
    while i < requests.len()
        invariant
            all == requests.deep_view(),
            i <= requests@.len(),
            first_fatal(all.take(i as int)) is None,
            lines.deep_view() == diagnostics(all.take(i as int)),
            paths.deep_view() == entries(all.take(i as int), show_hidden),
        decreases requests@.len() - i,
    {
        proof {
            assert(all.take(i + 1).drop_last() =~= all.take(i as int));
            assert(all.take(i + 1).last() == requests@[i as int]@);
        }
        let request = &requests[i];
        let ghost lines_before = lines.deep_view();
        let ghost paths_before = paths.deep_view();
        match &request.probe {
            Probe::Unreadable { message } => {
                lines.push(diagnostic_line(request.path.as_str(), message.as_str()));
                assert(lines.deep_view() =~= lines_before + reported(request@));
                assert(paths.deep_view() =~= paths_before + found(request@, show_hidden));
            },
            Probe::File => {
                paths.push(request.path.clone());
                assert(paths.deep_view() =~= paths_before + found(request@, show_hidden));
                assert(lines.deep_view() =~= lines_before + reported(request@));
            },
            Probe::Directory { children } => {
                let mut more = visible_children(children, show_hidden);
                let ghost added = more.deep_view();
                paths.append(&mut more);
                assert(paths.deep_view() =~= paths_before + added);
                assert(lines.deep_view() =~= lines_before + reported(request@));
            },
            Probe::Unlistable { message } => {
                proof {
                    assert(first_fatal(all.take(i + 1)) == Some(i as int));
                    lemma_fatal_stays(all, i + 1);
                }
                return Resolution {
                    diagnostics: lines,
                    outcome: Err(
                        ResolveError { path: request.path.clone(), message: message.clone() },
                    ),
                };
            },
        }
        i += 1;
    }
    assert(all.take(requests@.len() as int) =~= all);
    Resolution { diagnostics: lines, outcome: Ok(paths) }
}

/// Once a request among the first `n` ends the resolution, it is the one
/// that ends the resolution of the whole sequence.
proof fn lemma_fatal_stays(requests: Seq<RequestView>, n: int)
    requires
        0 <= n <= requests.len(),
        first_fatal(requests.take(n)) is Some,
    ensures
        first_fatal(requests) == first_fatal(requests.take(n)),
    decreases requests.len() - n,
{
    if n < requests.len() {
        assert(requests.take(n + 1).drop_last() =~= requests.take(n));
        lemma_fatal_stays(requests, n + 1);
    } else {
        assert(requests.take(n) =~= requests);
    }
}

/// Whether `path` is the path of a child that is listed.
pub open spec fn path_of_listed(
    children: Seq<Option<ChildView>>,
    show_hidden: bool,
    path: Seq<char>,
) -> bool {
    exists|i: int|
        0 <= i < children.len() && listed(#[trigger] children[i], show_hidden)
            && children[i]->0.path == path
}

/// Every path that a directory is listed with is the path of one of its
/// children that could be read, and of one that is not hidden unless
/// hidden entries are asked for. Conversely every such child is listed.
pub proof fn lemma_visible_children(children: Seq<Option<ChildView>>, show_hidden: bool)
    ensures
        forall|j: int|
            0 <= j < visible(children, show_hidden).len() ==> path_of_listed(
                children,
                show_hidden,
                #[trigger] visible(children, show_hidden)[j],
            ),
        forall|i: int|
            0 <= i < children.len() && listed(#[trigger] children[i], show_hidden) ==> visible(
                children,
                show_hidden,
            ).contains(children[i]->0.path),
        visible(children, show_hidden).len() <= children.len(),
    decreases children.len(),
{
    let out = visible(children, show_hidden);
    if children.len() > 0 {
        let above = children.drop_last();
        let before = visible(above, show_hidden);
        let n = children.len() - 1;
        lemma_visible_children(above, show_hidden);
        assert forall|j: int| 0 <= j < out.len() implies path_of_listed(
            children,
            show_hidden,
            #[trigger] out[j],
        ) by {
            if j < before.len() {
                assert(path_of_listed(above, show_hidden, before[j]));
                let i = choose|i: int|
                    0 <= i < above.len() && listed(#[trigger] above[i], show_hidden)
                        && above[i]->0.path == before[j];
                assert(children[i] == above[i]);
            } else {
                assert(listed(children[n], show_hidden));
            }
        }
        assert forall|i: int|
            0 <= i < children.len() && listed(#[trigger] children[i], show_hidden) implies out.contains(
            children[i]->0.path,
        ) by {
            if i < n {
                assert(above[i] == children[i]);
                let j = choose|j: int|
                    0 <= j < before.len() && before[j] == children[i]->0.path;
                assert(out[j] == children[i]->0.path);
            } else {
                assert(out[out.len() - 1] == children[i]->0.path);
            }
        }
    }
}

/// Whether no two children that could be read have the same path.
pub open spec fn distinct_paths(children: Seq<Option<ChildView>>) -> bool {
    forall|i: int, j: int|
        0 <= i < j < children.len() && (#[trigger] children[i]) is Some && (
        #[trigger] children[j]) is Some ==> children[i]->0.path != children[j]->0.path
}

/// Where the children of a directory have paths of their own, each listed
/// child occurs in the listing exactly once: no path is given twice.
pub proof fn lemma_visible_once(children: Seq<Option<ChildView>>, show_hidden: bool)
    requires
        distinct_paths(children),
    ensures
        visible(children, show_hidden).no_duplicates(),
    decreases children.len(),
{
    let out = visible(children, show_hidden);
    if children.len() > 0 {
        let above = children.drop_last();
        let before = visible(above, show_hidden);
        let n = children.len() - 1;
        assert(distinct_paths(above)) by {
            assert forall|i: int, j: int|
                0 <= i < j < above.len() && (#[trigger] above[i]) is Some && (
                #[trigger] above[j]) is Some implies above[i]->0.path != above[j]->0.path by {
                assert(above[i] == children[i] && above[j] == children[j]);
            }
        }
        lemma_visible_once(above, show_hidden);
        lemma_visible_children(above, show_hidden);
        if listed(children[n], show_hidden) {
            assert forall|j: int| 0 <= j < before.len() implies before[j]
                != children[n]->0.path by {
                assert(path_of_listed(above, show_hidden, before[j]));
                let i = choose|i: int|
                    0 <= i < above.len() && listed(#[trigger] above[i], show_hidden)
                        && above[i]->0.path == before[j];
                assert(above[i] == children[i]);
                assert(children[i] is Some && children[n] is Some);
            }
            assert forall|i: int, j: int|
                0 <= i < out.len() && 0 <= j < out.len() && i != j implies out[i] != out[j] by {
                if i < before.len() && j < before.len() {
                    assert(before[i] != before[j]);
                }
            }
        }
    }
}

/// A directory that is asked for alone resolves to its listed children,
/// in the directory's order. So without `show_hidden` no entry belongs to
/// a child whose name starts with a dot, and every child that could be
/// read and has no such name is among the entries; with `show_hidden`
/// every child that could be read is among them.
pub proof fn lemma_directory_alone(
    path: Seq<char>,
    children: Seq<Option<ChildView>>,
    show_hidden: bool,
)
    ensures
        ({
            let request = RequestView { path, probe: ProbeView::Directory { children } };
            let out = entries(seq![request], show_hidden);
            &&& first_fatal(seq![request]) is None
            &&& out == visible(children, show_hidden)
            &&& forall|j: int|
                0 <= j < out.len() ==> path_of_listed(children, show_hidden, #[trigger] out[j])
            &&& forall|i: int|
                0 <= i < children.len() && (#[trigger] children[i]) is Some && (show_hidden
                    || !hidden(children[i]->0.name)) ==> out.contains(children[i]->0.path)
        }),
{
    let request = RequestView { path, probe: ProbeView::Directory { children } };
    let out = entries(seq![request], show_hidden);
    reveal_with_fuel(entries, 2);
    reveal_with_fuel(first_fatal, 2);
    assert(out =~= visible(children, show_hidden));
    lemma_visible_children(children, show_hidden);
    assert forall|i: int|
        0 <= i < children.len() && (#[trigger] children[i]) is Some && (show_hidden || !hidden(
            children[i]->0.name,
        )) implies out.contains(children[i]->0.path) by {
        assert(listed(children[i], show_hidden));
    }
}

/// A regular file that is asked for alone resolves to itself, whatever
/// its name and whether or not hidden entries are asked for.
pub proof fn lemma_file_alone(path: Seq<char>, show_hidden: bool)
    ensures
        ({
            let request = RequestView { path, probe: ProbeView::File };
            &&& first_fatal(seq![request]) is None
            &&& entries(seq![request], show_hidden) == seq![path]
            &&& diagnostics(seq![request]) == Seq::<Seq<char>>::empty()
        }),
{
    let request = RequestView { path, probe: ProbeView::File };
    reveal_with_fuel(entries, 2);
    reveal_with_fuel(diagnostics, 2);
    reveal_with_fuel(first_fatal, 2);
    assert(entries(seq![request], show_hidden) =~= seq![path]);
    assert(diagnostics(seq![request]) =~= Seq::<Seq<char>>::empty());
}

/// The entries of earlier requests come before those of later ones: the
/// entries of two runs of requests, one after the other, are the entries
/// of the first run followed by those of the second. The same holds of
/// the lines reported.
pub proof fn lemma_order_kept(
    first: Seq<RequestView>,
    second: Seq<RequestView>,
    show_hidden: bool,
)
    ensures
        entries(first + second, show_hidden) == entries(first, show_hidden) + entries(
            second,
            show_hidden,
        ),
        diagnostics(first + second) == diagnostics(first) + diagnostics(second),
    decreases second.len(),
{
    if second.len() == 0 {
        assert(first + second =~= first);
        assert(entries(first, show_hidden) + entries(second, show_hidden) =~= entries(
            first,
            show_hidden,
        ));
        assert(diagnostics(first) + diagnostics(second) =~= diagnostics(first));
    } else {
        let both = first + second;
        assert(both.drop_last() =~= first + second.drop_last());
        assert(both.last() == second.last());
        lemma_order_kept(first, second.drop_last(), show_hidden);
        assert(entries(both, show_hidden) =~= entries(first, show_hidden) + entries(
            second,
            show_hidden,
        ));
        assert(diagnostics(both) =~= diagnostics(first) + diagnostics(second));
    }
}

/// The request that ends a resolution is the first that cannot be listed:
/// none before it ends it, and where no request ends it, none is such.
pub proof fn lemma_first_fatal_is_least(requests: Seq<RequestView>)
    ensures
        match first_fatal(requests) {
            Some(k) => {
                &&& 0 <= k < requests.len()
                &&& fatal(requests[k]) is Some
                &&& forall|j: int| 0 <= j < k ==> fatal(#[trigger] requests[j]) is None
            },
            None => forall|j: int| 0 <= j < requests.len() ==> fatal(#[trigger] requests[j]) is None,
        },
    decreases requests.len(),
{
    if requests.len() > 0 {
        let above = requests.drop_last();
        lemma_first_fatal_is_least(above);
        assert forall|j: int| 0 <= j < above.len() implies above[j] == requests[j] by {}
        match first_fatal(above) {
            Some(k) => {
                assert(above[k] == requests[k]);
                assert forall|j: int| 0 <= j < k implies fatal(#[trigger] requests[j]) is None by {
                    assert(above[j] == requests[j]);
                }
            },
            None => {
                assert forall|j: int| 0 <= j < above.len() implies fatal(
                    #[trigger] requests[j],
                ) is None by {
                    assert(above[j] == requests[j]);
                }
            },
        }
    }
}

} // verus!
