//! What a listing is asked for.

use vstd::prelude::*;

verus! {

/// The request for a listing: the paths to list, whether to list them in
/// long form, and whether to list the hidden entries of directories.
#[derive(Clone, Debug, PartialEq, Eq)]
pub struct Args {
    pub paths: Vec<String>,
    pub long: bool,
    pub show_hidden: bool,
}

/// A request as a mathematical value.
pub struct ArgsView {
    pub paths: Seq<Seq<char>>,
    pub long: bool,
    pub show_hidden: bool,
}

impl View for Args {
    type V = ArgsView;

    open spec fn view(&self) -> ArgsView {
        ArgsView { paths: self.paths.deep_view(), long: self.long, show_hidden: self.show_hidden }
    }
}

/// The paths that are listed where `paths` are given: the current
/// directory where none is given, else those given.
pub open spec fn paths_or_current(paths: Seq<Seq<char>>) -> Seq<Seq<char>> {
    if paths.len() == 0 {
        seq![seq!['.']]
    } else {
        paths
    }
}

impl Args {
    /// The request for `paths`, or for the current directory if `paths`
    /// is empty.
    pub fn new(paths: Vec<String>, long: bool, show_hidden: bool) -> (args: Args)
        ensures
            args@ == (ArgsView {
                paths: paths_or_current(paths.deep_view()),
                long,
                show_hidden,
            }),
    {
        let mut paths = paths;
        if paths.len() == 0 {
            let mut current = String::new();
            current.push('.');
            assert(current@ =~= seq!['.']);
            paths.push(current);
            assert(paths.deep_view() =~= seq![seq!['.']]);
        }
        Args { paths, long, show_hidden }
    }
}

} // verus!
