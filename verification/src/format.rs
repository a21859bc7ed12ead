//! The long listing: one row per entry with its type and permissions,
//! link count, owner, group, size, time of last change and path.

use vstd::prelude::*;
use crate::clock::{clock, clock_text, has_date, is_clock, is_offset, lemma_clock_shape};
use crate::decimal::{decimal, is_digit, lemma_decimal_reads_back, to_decimal};
use crate::mode::{format_mode, lemma_mode_round_trip, mode_chars};
use crate::table::{
    column_width, line_prefix, line_text, measured, padding, table_prefix, table_text, Align, Cell,
    CellView, Table,
};

verus! {

/// What the file system says of one entry.
#[derive(Clone, Copy, Debug, PartialEq, Eq, Structural)]
pub struct Metadata {
    /// Whether the entry is a directory.
    pub is_dir: bool,
    /// The mode field; its low nine bits are the permissions.
    pub mode: u32,
    /// The number of hard links.
    pub nlink: u64,
    /// The owner's numeric id.
    pub uid: u32,
    /// The group's numeric id.
    pub gid: u32,
    /// The size in bytes.
    pub size: u64,
    /// When the entry was last changed: whole seconds since 1970 (UTC).
    pub modified_secs: i64,
    /// When the entry was last changed: the nanoseconds beyond `modified_secs`.
    pub modified_nanos: u32,
    /// How many seconds local time was ahead of UTC when the entry was
    /// last changed.
    pub modified_offset: i32,
}

/// One row of the long listing, cell by cell.
#[derive(Clone, Debug, PartialEq, Eq)]
pub struct LongRow {
    /// `d` or `-`, then the nine permission characters.
    pub permissions: String,
    pub links: String,
    pub user: String,
    pub group: String,
    pub size: String,
    pub modified: String,
    pub path: String,
}

/// A row as a mathematical value.
pub struct LongRowView {
    pub permissions: Seq<char>,
    pub links: Seq<char>,
    pub user: Seq<char>,
    pub group: Seq<char>,
    pub size: Seq<char>,
    pub modified: Seq<char>,
    pub path: Seq<char>,
}

impl View for LongRow {
    type V = LongRowView;

    open spec fn view(&self) -> LongRowView {
        LongRowView {
            permissions: self.permissions@,
            links: self.links@,
            user: self.user@,
            group: self.group@,
            size: self.size@,
            modified: self.modified@,
            path: self.path@,
        }
    }
}

impl DeepView for LongRow {
    type V = LongRowView;

    open spec fn deep_view(&self) -> LongRowView {
        self@
    }
}

/// The character that tells a directory from anything else.
pub open spec fn type_char(is_dir: bool) -> char {
    if is_dir {
        'd'
    } else {
        '-'
    }
}

/// The name shown for a numeric id: the name it resolves to, or the id
/// itself in decimal where it resolves to none.
pub open spec fn owner_text(id: u32, name: Option<Seq<char>>) -> Seq<char> {
    match name {
        Some(name) => name,
        None => decimal(id as nat),
    }
}

/// The size shown: nothing for a directory, the byte count otherwise.
pub open spec fn size_text(metadata: Metadata) -> Seq<char> {
    if metadata.is_dir {
        Seq::empty()
    } else {
        decimal(metadata.size as nat)
    }
}

/// Whether the time of last change has a time of day to show.
pub open spec fn has_clock(metadata: Metadata) -> bool {
    has_date(metadata.modified_secs, metadata.modified_nanos) && is_offset(
        metadata.modified_offset,
    )
}

/// The row that shows `metadata` of `path`, given the names that the ids
/// resolve to.
pub open spec fn long_row_view(
    path: Seq<char>,
    metadata: Metadata,
    user: Option<Seq<char>>,
    group: Option<Seq<char>>,
) -> LongRowView {
    LongRowView {
        permissions: seq![type_char(metadata.is_dir)] + mode_chars(metadata.mode),
        links: decimal(metadata.nlink as nat),
        user: owner_text(metadata.uid, user),
        group: owner_text(metadata.gid, group),
        size: size_text(metadata),
        modified: clock_text(metadata.modified_secs, metadata.modified_offset),
        path,
    }
}

/// How the seven columns are aligned: numbers to the right, all else to
/// the left.
pub open spec fn long_aligns() -> Seq<Align> {
    seq![
        Align::Left,
        Align::Right,
        Align::Left,
        Align::Left,
        Align::Right,
        Align::Left,
        Align::Left,
    ]
}

/// The cells of a row, from left to right.
pub open spec fn row_cells(row: LongRowView) -> Seq<CellView> {
    seq![
        measured(row.permissions),
        measured(row.links),
        measured(row.user),
        measured(row.group),
        measured(row.size),
        measured(row.modified),
        measured(row.path),
    ]
}

/// The cells of all rows, row by row.
pub open spec fn long_cells(rows: Seq<LongRowView>) -> Seq<Seq<CellView>> {
    Seq::new(rows.len(), |r: int| row_cells(rows[r]))
}

/// The long listing of `rows` as text.
pub open spec fn long_table(rows: Seq<LongRowView>) -> Seq<char> {
    table_text(long_aligns(), long_cells(rows))
}

/// The spaces that fill `text` up to the width of column `c`.
pub open spec fn fill(rows: Seq<LongRowView>, c: int, text: Seq<char>) -> Seq<char> {
    padding(measured(text), column_width(long_cells(rows), c))
}

/// Row `r` of the long listing as a line: its seven cells with one space
/// between them, link count and size filled up on the left, the others
/// but the path on the right, and a newline at the end.
pub open spec fn long_line(rows: Seq<LongRowView>, r: int) -> Seq<char> {
    let row = rows[r];
    row.permissions + fill(rows, 0, row.permissions) + seq![' '] + fill(rows, 1, row.links)
        + row.links + seq![' '] + row.user + fill(rows, 2, row.user) + seq![' '] + row.group
        + fill(rows, 3, row.group) + seq![' '] + fill(rows, 4, row.size) + row.size + seq![' ']
        + row.modified + fill(rows, 5, row.modified) + seq![' '] + row.path + seq!['\n']
}

/// The first `n` lines of the long listing, one after the other.
pub open spec fn long_lines(rows: Seq<LongRowView>, n: int) -> Seq<char>
    decreases n,
{
    if n <= 0 {
        Seq::empty()
    } else {
        long_lines(rows, n - 1) + long_line(rows, n - 1)
    }
}

/// The long listing is one line per row, in the order of the rows, and
/// each line is that of its row.
pub proof fn lemma_long_table_lines(rows: Seq<LongRowView>)
    ensures
        long_table(rows) == long_lines(rows, rows.len() as int),
{
    lemma_long_lines_upto(rows, rows.len() as int);
}

proof fn lemma_long_lines_upto(rows: Seq<LongRowView>, n: int)
    requires
        0 <= n <= rows.len(),
    ensures
        table_prefix(long_aligns(), long_cells(rows), n) == long_lines(rows, n),
    decreases n,
{
    if n > 0 {
        lemma_long_lines_upto(rows, n - 1);
        lemma_long_line(rows, n - 1);
    }
}

/// The line of a row in the table is the row's line.
pub proof fn lemma_long_line(rows: Seq<LongRowView>, r: int)
    requires
        0 <= r < rows.len(),
    ensures
        line_text(long_aligns(), long_cells(rows), r) == long_line(rows, r),
{
    let aligns = long_aligns();
    let cells = long_cells(rows);
    assert(cells[r] == row_cells(rows[r]));
    reveal_with_fuel(line_prefix, 8);
    assert(line_text(aligns, cells, r) =~= long_line(rows, r));
}

/// A row alone on a line: its cells with exactly one space between them,
/// and a newline.
pub open spec fn single_line(row: LongRowView) -> Seq<char> {
    row.permissions + seq![' '] + row.links + seq![' '] + row.user + seq![' '] + row.group + seq![
        ' ',
    ] + row.size + seq![' '] + row.modified + seq![' '] + row.path + seq!['\n']
}

/// The long listing of a single row is that row alone on a line: nothing
/// is filled up.
pub proof fn lemma_single_row(row: LongRowView)
    ensures
        long_table(seq![row]) == single_line(row),
{
    let rows = seq![row];
    let cells = long_cells(rows);
    lemma_long_table_lines(rows);
    reveal_with_fuel(long_lines, 2);
    reveal_with_fuel(column_width, 2);
    assert(cells[0] == row_cells(row));
    assert(cells.drop_last() =~= Seq::<Seq<CellView>>::empty());
    assert(fill(rows, 0, row.permissions) =~= Seq::<char>::empty());
    assert(fill(rows, 1, row.links) =~= Seq::<char>::empty());
    assert(fill(rows, 2, row.user) =~= Seq::<char>::empty());
    assert(fill(rows, 3, row.group) =~= Seq::<char>::empty());
    assert(fill(rows, 4, row.size) =~= Seq::<char>::empty());
    assert(fill(rows, 5, row.modified) =~= Seq::<char>::empty());
    assert(long_table(rows) =~= single_line(row));
}

/// What the row of an entry holds, whatever the names: first the type,
/// `d` for a directory and a dash for anything else, and the nine
/// permission characters; the link count in digits; no size for a
/// directory and the byte count in digits for anything else; a time of
/// day; and the path as it is.
pub proof fn lemma_row_of_metadata(
    path: Seq<char>,
    metadata: Metadata,
    user: Option<Seq<char>>,
    group: Option<Seq<char>>,
)
    ensures
        ({
            let row = long_row_view(path, metadata, user, group);
            &&& row.permissions.len() == 10
            &&& row.permissions[0] == (if metadata.is_dir {
                'd'
            } else {
                '-'
            })
            &&& row.permissions.subrange(1, 10) == mode_chars(metadata.mode)
            &&& row.links == decimal(metadata.nlink as nat)
            &&& forall|i: int| 0 <= i < row.links.len() ==> is_digit(#[trigger] row.links[i])
            &&& metadata.is_dir ==> row.size.len() == 0
            &&& !metadata.is_dir ==> row.size == decimal(metadata.size as nat) && row.size.len()
                >= 1
            &&& forall|i: int| 0 <= i < row.size.len() ==> is_digit(#[trigger] row.size[i])
            &&& user is None ==> row.user == decimal(metadata.uid as nat)
            &&& group is None ==> row.group == decimal(metadata.gid as nat)
            &&& is_clock(row.modified)
            &&& row.path == path
        }),
{
    let row = long_row_view(path, metadata, user, group);
    lemma_mode_round_trip(metadata.mode);
    lemma_decimal_reads_back(metadata.nlink as nat);
    lemma_decimal_reads_back(metadata.size as nat);
    lemma_clock_shape(metadata.modified_secs, metadata.modified_offset);
    assert(row.permissions.subrange(1, 10) =~= mode_chars(metadata.mode));
}

fn owner_name(id: u32, name: Option<String>) -> (text: String)
    ensures
        text@ == owner_text(id, name.deep_view()),
{
    match name {
        Some(name) => name,
        None => to_decimal(id as u64),
    }
}

/// Builds the row that shows `metadata` of `path`. `user` and `group` are
/// the names that the owner's and the group's id resolve to, if any.
/// There is no row where the time of last change has no time of day.
pub fn long_row(
    path: &str,
    metadata: &Metadata,
    user: Option<String>,
    group: Option<String>,
) -> (row: Option<LongRow>)
    ensures
        row.is_some() == has_clock(*metadata),
        row matches Some(row) ==> row@ == long_row_view(
            path@,
            *metadata,
            user.deep_view(),
            group.deep_view(),
        ),
{
    match clock(metadata.modified_secs, metadata.modified_nanos, metadata.modified_offset) {
        None => None,
        Some(modified) => {
            let mut permissions = String::new();
            permissions.push(if metadata.is_dir { 'd' } else { '-' });
            permissions.append(format_mode(metadata.mode).as_str());
            assert(permissions@ =~= seq![type_char(metadata.is_dir)] + mode_chars(metadata.mode));
            let size = if metadata.is_dir { String::new() } else { to_decimal(metadata.size) };
            Some(
                LongRow {
                    permissions,
                    links: to_decimal(metadata.nlink),
                    user: owner_name(metadata.uid, user),
                    group: owner_name(metadata.gid, group),
                    size,
                    modified,
                    path: path.to_owned(),
                },
            )
        },
    }
}

fn long_columns() -> (aligns: Vec<Align>)
    ensures
        aligns@ == long_aligns(),
{
    let mut aligns: Vec<Align> = Vec::new();
    aligns.push(Align::Left);
    aligns.push(Align::Right);
    aligns.push(Align::Left);
    aligns.push(Align::Left);
    aligns.push(Align::Right);
    aligns.push(Align::Left);
    aligns.push(Align::Left);
    assert(aligns@ =~= long_aligns());
    aligns
}

impl LongRow {
    /// The cells of the row, each measured as it is displayed.
    pub fn cells(&self) -> (cells: Vec<Cell>)
        ensures
            cells@.len() == 7,
            cells.deep_view() == row_cells(self@),
    {
        let mut cells: Vec<Cell> = Vec::new();
        cells.push(Cell::measured(self.permissions.clone()));
        cells.push(Cell::measured(self.links.clone()));
        cells.push(Cell::measured(self.user.clone()));
        cells.push(Cell::measured(self.group.clone()));
        cells.push(Cell::measured(self.size.clone()));
        cells.push(Cell::measured(self.modified.clone()));
        cells.push(Cell::measured(self.path.clone()));
        assert(cells.deep_view() =~= row_cells(self@));
        cells
    }
}

/// Lays `rows` out as a table: one line per row, in order; the link
/// count and the size to the right of their columns, all else to the
/// left; one space between columns.
pub fn format_rows(rows: &Vec<LongRow>) -> (text: String)
    ensures
        text@ == long_table(rows.deep_view()),
{
    let mut table = Table::new(long_columns());
    let mut r: usize = 0;
    while r < rows.len()
        invariant
            r <= rows@.len(),
            table.wf(),
            table.aligns() == long_aligns(),
            table.rows() == Seq::new(r as nat, |k: int| row_cells(rows.deep_view()[k])),
        decreases rows@.len() - r,
    {
        let cells = rows[r].cells();
        table.add_row(cells);
        assert(table.rows() =~= Seq::new((r + 1) as nat, |k: int| row_cells(rows.deep_view()[k])));
        r += 1;
    }
    table.render()
}

/// An entry to show: its path, and its metadata or the reason why there
/// is none.
#[derive(Debug, PartialEq, Eq)]
pub struct Entry {
    pub path: String,
    pub metadata: Result<Metadata, String>,
}

/// An entry as a mathematical value.
pub struct EntryView {
    pub path: Seq<char>,
    pub metadata: Result<Metadata, Seq<char>>,
}

impl View for Entry {
    type V = EntryView;

    open spec fn view(&self) -> EntryView {
        EntryView {
            path: self.path@,
            metadata: match self.metadata {
                Ok(metadata) => Ok(metadata),
                Err(message) => Err(message@),
            },
        }
    }
}

impl DeepView for Entry {
    type V = EntryView;

    open spec fn deep_view(&self) -> EntryView {
        self@
    }
}

/// Why a long listing could not be made.
#[derive(Clone, Debug, PartialEq, Eq)]
pub enum FormatError {
    /// The metadata of `path` could not be had; `message` says why.
    Metadata { path: String, message: String },
    /// The time of last change of `path` has no time of day: there is no
    /// date for it, or its offset from UTC is a day or more.
    Timestamp { path: String },
}

/// A `FormatError` as a mathematical value.
pub enum FormatErrorView {
    Metadata { path: Seq<char>, message: Seq<char> },
    Timestamp { path: Seq<char> },
}

impl View for FormatError {
    type V = FormatErrorView;

    open spec fn view(&self) -> FormatErrorView {
        match self {
            FormatError::Metadata { path, message } => FormatErrorView::Metadata {
                path: path@,
                message: message@,
            },
            FormatError::Timestamp { path } => FormatErrorView::Timestamp { path: path@ },
        }
    }
}

/// `get_user_by_uid` of `users`, and the name of what it finds: the name
/// under which the system's user database lists `uid`, if it lists it.
/// Nothing is claimed of the answer: it is the machine's.
#[verifier::external_body]
fn user_name(uid: u32) -> (name: Option<String>) {
    match users::get_user_by_uid(uid) {
        Some(user) => Some(user.name().to_string_lossy().into_owned()),
        None => None,
    }
}

/// `get_group_by_gid` of `users`, and the name of what it finds: the name
/// under which the system's group database lists `gid`, if it lists it.
/// Nothing is claimed of the answer: it is the machine's.
#[verifier::external_body]
fn group_name(gid: u32) -> (name: Option<String>) {
    match users::get_group_by_gid(gid) {
        Some(group) => Some(group.name().to_string_lossy().into_owned()),
        None => None,
    }
}

/// Why `entry` cannot be shown, if it cannot.
pub open spec fn failure(entry: EntryView) -> Option<FormatErrorView> {
    match entry.metadata {
        Err(message) => Some(FormatErrorView::Metadata { path: entry.path, message }),
        Ok(metadata) => if has_clock(metadata) {
            None
        } else {
            Some(FormatErrorView::Timestamp { path: entry.path })
        },
    }
}

/// The failure of the first entry that cannot be shown, if there is one.
pub open spec fn first_failure(entries: Seq<EntryView>) -> Option<FormatErrorView>
    decreases entries.len(),
{
    if entries.len() == 0 {
        None
    } else {
        match first_failure(entries.drop_last()) {
            Some(error) => Some(error),
            None => failure(entries.last()),
        }
    }
}

/// Whether `row` shows `entry`: it is the row of the entry's metadata, for
/// some answer on the owner's and the group's name.
pub open spec fn shows(row: LongRowView, entry: EntryView) -> bool {
    &&& entry.metadata is Ok
    &&& exists|user: Option<Seq<char>>, group: Option<Seq<char>>|
        row == #[trigger] long_row_view(entry.path, entry.metadata->Ok_0, user, group)
}

/// Makes the row of one entry. The names of owner and group are looked up
/// in the system's databases; all else is as the entry's metadata says.
pub fn describe(entry: &Entry) -> (result: Result<LongRow, FormatError>)
    ensures
        match result {
            Ok(row) => failure(entry@) is None && shows(row@, entry@),
            Err(error) => failure(entry@) == Some(error@),
        },
{
    match &entry.metadata {
        Err(message) => Err(
            FormatError::Metadata { path: entry.path.clone(), message: message.clone() },
        ),
        Ok(metadata) => {
            let user = user_name(metadata.uid);
            let group = group_name(metadata.gid);
            let ghost names = (user.deep_view(), group.deep_view());
            match long_row(entry.path.as_str(), metadata, user, group) {
                None => Err(FormatError::Timestamp { path: entry.path.clone() }),
                Some(row) => {
                    assert(row@ == long_row_view(
                        entry@.path,
                        entry@.metadata->Ok_0,
                        names.0,
                        names.1,
                    ));
                    Ok(row)
                },
            }
        },
    }
}

/// The long listing of `entries`: the table of their rows, in order. It
/// succeeds exactly where every entry has metadata and a time of day for
/// its last change, and else fails, with nothing listed, at the first
/// entry that has not. The names of owners and groups are looked up in
/// the system's databases.
pub fn format_output(entries: &Vec<Entry>) -> (result: Result<String, FormatError>)
    ensures
        match result {
            Ok(text) => {
                &&& first_failure(entries.deep_view()) is None
                &&& exists|rows: Seq<LongRowView>|
                    {
                        &&& rows.len() == entries@.len()
                        &&& forall|i: int|
                            0 <= i < rows.len() ==> shows(
                                #[trigger] rows[i],
                                entries.deep_view()[i],
                            )
                        &&& text@ == #[trigger] long_table(rows)
                    }
            },
            Err(error) => first_failure(entries.deep_view()) == Some(error@),
        },
        result is Ok <==> forall|i: int|
            0 <= i < entries@.len() ==> failure(#[trigger] entries.deep_view()[i]) is None,
{
    let ghost all = entries.deep_view();
    proof {
        lemma_first_failure_is_least(all);
    }
    let mut rows: Vec<LongRow> = Vec::new();
    let mut i: usize = 0;
    while i < entries.len()
        invariant
            all == entries.deep_view(),
            i <= entries@.len(),
            rows@.len() == i,
            first_failure(all.take(i as int)) is None,
            forall|k: int| 0 <= k < i ==> shows(#[trigger] rows.deep_view()[k], all[k]),
        decreases entries@.len() - i,
    {
        proof {
            assert(all.take(i + 1).drop_last() =~= all.take(i as int));
            assert(all.take(i + 1).last() == entries@[i as int]@);
        }
        match describe(&entries[i]) {
            Err(error) => {
                proof {
                    lemma_failure_stays(all, i + 1);
                }
                return Err(error);
            },
            Ok(row) => {
                let ghost before = rows.deep_view();
                rows.push(row);
                assert forall|k: int| 0 <= k < i + 1 implies shows(
                    #[trigger] rows.deep_view()[k],
                    all[k],
                ) by {
                    if k < i {
                        assert(rows.deep_view()[k] == before[k]);
                    }
                }
            },
        }
        i += 1;
    }
    assert(all.take(entries@.len() as int) =~= all);
    let text = format_rows(&rows);
    assert(text@ == long_table(rows.deep_view()));
    Ok(text)
}

/// The long listing of one entry that can be shown is one line: the row
/// of the entry's metadata, for some answer on the owner's and the
/// group's name, alone on a line.
pub proof fn lemma_listing_of_one(entry: EntryView, rows: Seq<LongRowView>)
    requires
        rows.len() == 1,
        shows(rows[0], entry),
    ensures
        entry.metadata is Ok,
        exists|user: Option<Seq<char>>, group: Option<Seq<char>>|
            long_table(rows) == single_line(
                #[trigger] long_row_view(entry.path, entry.metadata->Ok_0, user, group),
            ),
{
    lemma_single_row(rows[0]);
    assert(rows =~= seq![rows[0]]);
}

/// The failure of a listing is that of the first entry that cannot be
/// shown: none before it fails, and where there is no failure, no entry
/// fails.
pub proof fn lemma_first_failure_is_least(entries: Seq<EntryView>)
    ensures
        match first_failure(entries) {
            Some(error) => exists|k: int|
                {
                    &&& 0 <= k < entries.len()
                    &&& failure(#[trigger] entries[k]) == Some(error)
                    &&& forall|j: int| 0 <= j < k ==> failure(#[trigger] entries[j]) is None
                },
            None => forall|j: int| 0 <= j < entries.len() ==> failure(#[trigger] entries[j]) is None,
        },
    decreases entries.len(),
{
    if entries.len() > 0 {
        let above = entries.drop_last();
        let n = entries.len() - 1;
        lemma_first_failure_is_least(above);
        assert forall|j: int| 0 <= j < n implies above[j] == entries[j] by {}
        match first_failure(above) {
            Some(error) => {
                let k = choose|k: int|
                    {
                        &&& 0 <= k < above.len()
                        &&& failure(#[trigger] above[k]) == Some(error)
                        &&& forall|j: int| 0 <= j < k ==> failure(#[trigger] above[j]) is None
                    };
                assert(entries[k] == above[k]);
                assert forall|j: int| 0 <= j < k implies failure(#[trigger] entries[j]) is None by {
                    assert(above[j] == entries[j]);
                }
            },
            None => {
                assert forall|j: int| 0 <= j < n implies failure(#[trigger] entries[j]) is None by {
                    assert(above[j] == entries[j]);
                }
                if failure(entries[n]) is Some {
                    assert(failure(entries[n]) == first_failure(entries));
                }
            },
        }
    }
}

/// Once some entry among the first `n` cannot be shown, the first failure
/// of the whole sequence is the first failure among those `n`.
proof fn lemma_failure_stays(entries: Seq<EntryView>, n: int)
    requires
        0 <= n <= entries.len(),
        first_failure(entries.take(n)) is Some,
    ensures
        first_failure(entries) == first_failure(entries.take(n)),
    decreases entries.len() - n,
{
    if n < entries.len() {
        assert(entries.take(n + 1).drop_last() =~= entries.take(n));
        lemma_failure_stays(entries, n + 1);
    } else {
        assert(entries.take(n) =~= entries);
    }
}

/// The bare listing: each path on a line of its own, in order.
pub open spec fn bare_text(paths: Seq<Seq<char>>) -> Seq<char>
    decreases paths.len(),
{
    if paths.len() == 0 {
        Seq::empty()
    } else {
        bare_text(paths.drop_last()) + paths.last().push('\n')
    }
}

/// The bare listing of `paths`: each path as it is, each followed by a
/// newline, in the order given.
pub fn format_bare(paths: &Vec<String>) -> (text: String)
    ensures
        text@ == bare_text(paths.deep_view()),
{
    let ghost all = paths.deep_view();
    let mut text = String::new();
    let mut i: usize = 0;
    while i < paths.len()
        invariant
            all == paths.deep_view(),
            i <= paths@.len(),
            text@ == bare_text(all.take(i as int)),
        decreases paths@.len() - i,
    {
        proof {
            assert(all.take(i + 1).drop_last() =~= all.take(i as int));
            assert(all.take(i + 1).last() == paths@[i as int]@);
        }
        let ghost before = text@;
        text.append(paths[i].as_str());
        text.push('\n');
        assert(text@ =~= before + paths@[i as int]@.push('\n'));
        i += 1;
    }
    assert(all.take(paths@.len() as int) =~= all);
    text
}

} // verus!
