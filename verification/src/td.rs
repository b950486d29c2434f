//! Tables of the database: the statements that read them, and what comes back
//! turned into text for display.

use crate::text::{
    clone_strings, decimal, decimal_text, is_plain_name, is_quotable, plain_name, quotable,
    signed_decimal, signed_decimal_text, texts,
};
use vstd::prelude::*;
use vstd::string::*;

verus! {

/// How many rows one page shows.
pub const PAGE_SIZE: i64 = 20;

/// Why a statement was not written, or a reply not turned into text.
#[derive(Debug, Clone, Copy, PartialEq, Eq)]
pub enum QueryError {
    /// The table's name is not a plain name.
    UnsafeTable,
    /// The filter holds a double quote or a backslash.
    UnsafeFilter,
    /// The page number is below 1.
    BadPage,
    /// The table's name has no second part after an underscore.
    NoSegment,
    /// A timestamp lies outside the years that four digits can show.
    TimestampRange,
}

/// The unit in which a timestamp counts from the epoch.
#[derive(Debug, Clone, Copy, PartialEq, Eq)]
pub enum Precision {
    Millisecond,
    Microsecond,
    Nanosecond,
}

/// One cell of a row, as the database sent it.
#[derive(Debug, Clone)]
pub enum CellValue {
    /// No value.
    Null,
    Bool(bool),
    /// A signed integer of at most 32 bits.
    Int(i64),
    /// A signed integer of 64 bits; a count comes as one.
    BigInt(i64),
    /// An unsigned integer.
    UInt(u64),
    /// Text, or a value that the database client has already put into text.
    Text(String),
    /// A point in time: the count since the epoch, and its unit.
    Timestamp(i64, Precision),
}

/// A super table.
#[derive(Debug)]
pub struct STable {
    pub stable_name: String,
}

/// A table below a super table.
#[derive(Debug)]
pub struct Table {
    pub table_name: String,
}

/// One row of a status table.
#[derive(Debug)]
pub struct Status {
    /// When the row was written, in milliseconds since the epoch.
    pub ts: i64,
    pub status: Option<i64>,
    pub robot_id: Option<String>,
}

/// The two statements of one fetch.
#[derive(Debug)]
pub struct Statements {
    /// Counts the rows that the filter lets through.
    pub count: String,
    /// Reads one page of them, newest first.
    pub page: String,
}

/// What the database answered to the two statements of one fetch.
#[derive(Debug)]
pub struct Reply {
    /// The first row of the count's answer, if it had a row.
    pub count_row: Option<Vec<CellValue>>,
    /// The names of the page's columns, in the order of the answer.
    pub fields: Vec<String>,
    /// The page's rows, in the order of the answer.
    pub rows: Vec<Vec<CellValue>>,
}

/// The characters of the filter, where there is one.
pub open spec fn filter_text(robot_id: Option<String>) -> Option<Seq<char>> {
    match robot_id {
        Some(f) => Some(f@),
        None => None,
    }
}

/// The condition that keeps the rows whose `robot_id` contains the filter;
/// nothing where there is no filter.
pub open spec fn filter_clause(filter: Option<Seq<char>>) -> Seq<char> {
    match filter {
        Some(f) => "where robot_id like \"%"@ + f + "%\""@,
        None => Seq::empty(),
    }
}

/// The statement that counts the rows of `table` that the filter lets through.
pub open spec fn count_statement(table: Seq<char>, filter: Option<Seq<char>>) -> Seq<char> {
    "select count(*) as c from "@ + table + " "@ + filter_clause(filter)
}

/// The number of rows that come before page `page`.
pub open spec fn page_offset(page: int) -> int {
    (page - 1) * PAGE_SIZE as int
}

/// The statement that reads page `page` of `table`: newest first, one page
/// long, after the rows of the pages before it.
pub open spec fn page_statement(table: Seq<char>, filter: Option<Seq<char>>, page: int) -> Seq<
    char,
> {
    "select * from "@ + table + " "@ + filter_clause(filter)
        + " order by ts desc limit 20 offset "@ + decimal_text(page_offset(page) as nat)
}

/// Whether the statements for these inputs can be written safely.
pub open spec fn statements_error(table: Seq<char>, filter: Option<Seq<char>>, page: int) -> Option<
    QueryError,
> {
    if !is_plain_name(table) {
        Some(QueryError::UnsafeTable)
    } else if filter is Some && !is_quotable(filter->0) {
        Some(QueryError::UnsafeFilter)
    } else if page < 1 {
        Some(QueryError::BadPage)
    } else {
        None
    }
}

/// Where the first underscore of `s` stands; the length of `s` if it has none.
pub open spec fn first_underscore(s: Seq<char>) -> int
    decreases s.len(),
{
    if s.len() == 0 {
        0
    } else if s[0] == '_' {
        0
    } else {
        1 + first_underscore(s.skip(1))
    }
}

/// The part of `s` between its first underscore and the next one, or the end
/// of `s` if no other follows; nothing if `s` has no underscore.
pub open spec fn second_segment(s: Seq<char>) -> Option<Seq<char>> {
    let i = first_underscore(s);
    if i >= s.len() {
        None
    } else {
        let rest = s.skip(i + 1);
        Some(rest.take(first_underscore(rest)))
    }
}

/// The statement that lists the tables whose names begin with `segment` and an
/// underscore.
pub open spec fn sub_tables_statement(segment: Seq<char>) -> Seq<char> {
    "show tables like \""@ + segment + "_%\""@
}

/// `a` comes before `b`, or is `b`, in the order of a dictionary whose alphabet
/// is the code points.
pub open spec fn text_le(a: Seq<char>, b: Seq<char>) -> bool
    decreases a.len(),
{
    if a.len() == 0 {
        true
    } else if b.len() == 0 {
        false
    } else if a[0] != b[0] {
        a[0] < b[0]
    } else {
        text_le(a.skip(1), b.skip(1))
    }
}

/// No entry of `s` comes after a later one.
pub open spec fn sorted_texts(s: Seq<Seq<char>>) -> bool {
    forall|i: int, j: int| 0 <= i <= j < s.len() ==> text_le(#[trigger] s[i], #[trigger] s[j])
}

/// The names of the super tables `v`.
pub open spec fn stable_names(v: Seq<STable>) -> Seq<Seq<char>> {
    Seq::new(v.len(), |i: int| v[i].stable_name@)
}

/// The names of the tables `v`.
pub open spec fn table_names(v: Seq<Table>) -> Seq<Seq<char>> {
    Seq::new(v.len(), |i: int| v[i].table_name@)
}

/// Sorts `names` with `sort` of std's slices, which orders strings by their
/// bytes and so by their code points. Claimed: afterwards the vector holds the
/// same strings as before, each as often, and none comes after a later one.
#[verifier::external_body]
fn sort_names(names: &mut Vec<String>)
    ensures
        texts(final(names)@).to_multiset() == texts(old(names)@).to_multiset(),
        sorted_texts(texts(final(names)@)),
{
    names.sort();
}

fn underscore_from(s: &str, from: usize) -> (at: usize)
    requires
        from <= s@.len(),
    ensures
        at == from + first_underscore(s@.skip(from as int)),
        from <= at <= s@.len(),
{
    let n = s.unicode_len();
    let mut i: usize = from;
    while i < n
        invariant
            n == s@.len(),
            from <= i <= n,
            from + first_underscore(s@.skip(from as int)) == i + first_underscore(
                s@.skip(i as int),
            ),
        decreases n - i,
    {
        let c = s.get_char(i);
        assert(s@.skip(i as int)[0] == c);
        assert(s@.skip(i as int).skip(1) =~= s@.skip(i + 1));
        if c == '_' {
            return i;
        }
        i = i + 1;
    }
    assert(s@.skip(n as int).len() == 0);
    i
}

proof fn lemma_first_underscore_bound(s: Seq<char>)
    ensures
        0 <= first_underscore(s) <= s.len(),
    decreases s.len(),
{
    if s.len() > 0 && s[0] != '_' {
        lemma_first_underscore_bound(s.skip(1));
    }
}

impl STable {
    /// The super table of that name.
    pub fn new(stable_name: String) -> (stable: STable)
        ensures
            stable.stable_name == stable_name,
    {
        STable { stable_name }
    }

    /// The catalog of a host: the super tables of the names that the host
    /// listed, in the order of the dictionary.
    pub fn get_stables(names: Vec<String>) -> (stables: Vec<STable>)
        ensures
            stable_names(stables@).to_multiset() == texts(names@).to_multiset(),
            sorted_texts(stable_names(stables@)),
    {
        let mut names = names;
        sort_names(&mut names);
        let mut stables: Vec<STable> = Vec::new();
        let mut i: usize = 0;
        while i < names.len()
            invariant
                i <= names@.len(),
                stables@.len() == i,
                forall|j: int| 0 <= j < i ==> stables@[j].stable_name@ == names@[j]@,
            decreases names@.len() - i,
        {
            stables.push(STable { stable_name: names[i].clone() });
            i = i + 1;
        }
        assert(stable_names(stables@) =~= texts(names@));
        stables
    }

    /// The statement that lists the tables below this super table. Their names
    /// begin with the second part of its name: what stands between the first
    /// underscore and the next.
    pub fn sub_tables_sql(&self) -> (sql: Result<String, QueryError>)
        ensures
            match sql {
                Ok(text) => is_plain_name(self.stable_name@) && second_segment(
                    self.stable_name@,
                ) is Some && text@ == sub_tables_statement(second_segment(self.stable_name@)->0),
                Err(QueryError::UnsafeTable) => !is_plain_name(self.stable_name@),
                Err(QueryError::NoSegment) => is_plain_name(self.stable_name@) && second_segment(
                    self.stable_name@,
                ) is None,
                Err(_) => false,
            },
    {
        let name = self.stable_name.as_str();
        if !plain_name(name) {
            return Err(QueryError::UnsafeTable);
        }
        let n = name.unicode_len();
        let i = underscore_from(name, 0);
        assert(name@.skip(0) =~= name@);
        if i >= n {
            return Err(QueryError::NoSegment);
        }
        let j = underscore_from(name, i + 1);
        let segment = name.substring_char(i + 1, j);
        proof {
            let rest = name@.skip(i + 1);
            lemma_first_underscore_bound(rest);
            assert(segment@ =~= rest.take(first_underscore(rest)));
        }
        let mut text = String::from_str("show tables like \"");
        text.append(segment);
        text.append("_%\"");
        Ok(text)
    }

    /// The tables below a super table, of the names that the host listed, in
    /// the order of the dictionary.
    pub fn get_sub_tables(names: Vec<String>) -> (tables: Vec<Table>)
        ensures
            table_names(tables@).to_multiset() == texts(names@).to_multiset(),
            sorted_texts(table_names(tables@)),
    {
        let mut names = names;
        sort_names(&mut names);
        let mut tables: Vec<Table> = Vec::new();
        let mut i: usize = 0;
        while i < names.len()
            invariant
                i <= names@.len(),
                tables@.len() == i,
                forall|j: int| 0 <= j < i ==> tables@[j].table_name@ == names@[j]@,
            decreases names@.len() - i,
        {
            tables.push(Table { table_name: names[i].clone() });
            i = i + 1;
        }
        assert(table_names(tables@) =~= texts(names@));
        tables
    }

    /// The two statements that fetch page `page` of this table: one counts the
    /// rows, one reads the page. With a filter both keep only the rows whose
    /// `robot_id` contains it.
    ///
    /// The table's name and the filter stand in the statements as they are, so
    /// a name that is not plain and a filter that could end the quoted text are
    /// refused.
    pub fn statements(&self, page: i32, robot_id: &Option<String>) -> (out: Result<
        Statements,
        QueryError,
    >)
        ensures
            match out {
                Ok(s) => statements_error(self.stable_name@, filter_text(*robot_id), page as int)
                    is None && s.count@ == count_statement(
                    self.stable_name@,
                    filter_text(*robot_id),
                ) && s.page@ == page_statement(
                    self.stable_name@,
                    filter_text(*robot_id),
                    page as int,
                ),
                Err(e) => statements_error(self.stable_name@, filter_text(*robot_id), page as int)
                    == Some(e),
            },
    {
        let name = self.stable_name.as_str();
        if !plain_name(name) {
            return Err(QueryError::UnsafeTable);
        }
        let mut clause = String::new();
        match robot_id {
            Some(filter) => {
                if !quotable(filter.as_str()) {
                    return Err(QueryError::UnsafeFilter);
                }
                clause.append("where robot_id like \"%");
                clause.append(filter.as_str());
                clause.append("%\"");
                assert(clause@ =~= filter_clause(filter_text(*robot_id)));
            },
            None => {},
        }
        if page < 1 {
            return Err(QueryError::BadPage);
        }
        let offset: u64 = (page as u64 - 1) * 20;
        let mut count = String::from_str("select count(*) as c from ");
        count.append(name);
        count.append(" ");
        count.append(clause.as_str());
        let mut rows = String::from_str("select * from ");
        rows.append(name);
        rows.append(" ");
        rows.append(clause.as_str());
        rows.append(" order by ts desc limit 20 offset ");
        rows.append(decimal(offset).as_str());
        Ok(Statements { count, page: rows })
    }
}

/// The instants that show with a year of four digits in every time zone: from
/// the first moment of the year 1 to the last of the year 9998, by the clock
/// of Greenwich.
pub open spec fn displayable(raw: i64, precision: Precision) -> bool {
    match precision {
        Precision::Millisecond => -62_135_596_800_000 <= raw <= 253_370_764_799_999,
        Precision::Microsecond => -62_135_596_800_000_000 <= raw <= 253_370_764_799_999_999,
        Precision::Nanosecond => true,
    }
}

/// What may stand at place `i` of a date and time written as
/// `YYYY-MM-DD HH:MM:SS`.
pub open spec fn time_char_ok(i: int, c: char) -> bool {
    if i == 4 || i == 7 {
        c == '-'
    } else if i == 10 {
        c == ' '
    } else if i == 13 || i == 16 {
        c == ':'
    } else {
        '0' <= c && c <= '9'
    }
}

/// `t` has the shape `YYYY-MM-DD HH:MM:SS`.
pub open spec fn is_time_text(t: Seq<char>) -> bool {
    t.len() == 19 && forall|i: int| 0 <= i < 19 ==> time_char_ok(i, #[trigger] t[i])
}

/// Whether the cell can be shown: every cell but a timestamp too far away.
pub open spec fn cell_in_range(cell: CellValue) -> bool {
    match cell {
        CellValue::Timestamp(raw, precision) => displayable(raw, precision),
        _ => true,
    }
}

/// `text` is what the cell shows as: a number in decimal, a truth value as
/// `true` or `false`, text as it is, nothing for no value, and a timestamp as a
/// date and a time of day. Which date and time depends on the time zone of the
/// machine, so for a timestamp only the shape is fixed.
pub open spec fn shows(cell: CellValue, text: Seq<char>) -> bool {
    match cell {
        CellValue::Null => text == Seq::<char>::empty(),
        CellValue::Bool(b) => text == if b {
            seq!['t', 'r', 'u', 'e']
        } else {
            seq!['f', 'a', 'l', 's', 'e']
        },
        CellValue::Int(v) => text == signed_decimal_text(v as int),
        CellValue::BigInt(v) => text == signed_decimal_text(v as int),
        CellValue::UInt(v) => text == decimal_text(v as nat),
        CellValue::Text(s) => text == s@,
        CellValue::Timestamp(raw, precision) => displayable(raw, precision) && is_time_text(text),
    }
}

/// `line` shows `row`, cell by cell.
pub open spec fn row_shown(row: Seq<CellValue>, line: Seq<String>) -> bool {
    line.len() == row.len() && forall|c: int|
        0 <= c < row.len() ==> shows(#[trigger] row[c], line[c]@)
}

/// Every cell of `row` can be shown.
pub open spec fn row_in_range(row: Seq<CellValue>) -> bool {
    forall|c: int| 0 <= c < row.len() ==> cell_in_range(#[trigger] row[c])
}

/// Every cell of every row can be shown.
pub open spec fn rows_in_range(rows: Seq<Vec<CellValue>>) -> bool {
    forall|r: int| 0 <= r < rows.len() ==> row_in_range(#[trigger] rows[r]@)
}

/// The last 64-bit integer of `row`, if it holds one.
pub open spec fn last_big_int(row: Seq<CellValue>) -> Option<i64>
    decreases row.len(),
{
    if row.len() == 0 {
        None
    } else {
        match row.last() {
            CellValue::BigInt(v) => Some(v),
            _ => last_big_int(row.drop_last()),
        }
    }
}

/// The count that the answer to a count statement holds: the 64-bit integer of
/// its first row. None where it had no row, or the row no such integer.
pub open spec fn count_of(count_row: Option<Vec<CellValue>>) -> Option<i64> {
    match count_row {
        Some(row) => last_big_int(row@),
        None => None,
    }
}

/// The number of pages that `total_size` rows fill, the last of them perhaps
/// in part. No rows still make one page, an empty one.
pub open spec fn page_count(total_size: int) -> int {
    if total_size <= 0 {
        1
    } else {
        (total_size + PAGE_SIZE - 1) / (PAGE_SIZE as int)
    }
}

/// Writes a timestamp as date and time of day in the machine's time zone:
/// `to_datetime_with_tz` of the database client's `Timestamp`, then chrono's
/// `format` with the pattern year, month, day, hour, minute, second. Both
/// panic on no instant that is let in here. Claimed: the text has the shape
/// `YYYY-MM-DD HH:MM:SS`, since the local year has four digits when Greenwich
/// is between the years 1 and 9998, and chrono pads each part with zeros.
#[verifier::external_body]
fn local_time_text(raw: i64, precision: Precision) -> (text: String)
    requires
        displayable(raw, precision),
    ensures
        is_time_text(text@),
{
    let unit = match precision {
        Precision::Millisecond => taos::Precision::Millisecond,
        Precision::Microsecond => taos::Precision::Microsecond,
        Precision::Nanosecond => taos::Precision::Nanosecond,
    };
    let stamp = taos::taos_query::common::Timestamp::new(raw, unit);
    stamp.to_datetime_with_tz().format("%Y-%m-%d %H:%M:%S").to_string()
}

/// Whether the instant shows with a year of four digits.
pub fn in_display_range(raw: i64, precision: Precision) -> (fit: bool)
    ensures
        fit == displayable(raw, precision),
{
    match precision {
        Precision::Millisecond => -62_135_596_800_000 <= raw && raw <= 253_370_764_799_999,
        Precision::Microsecond => -62_135_596_800_000_000 <= raw && raw
            <= 253_370_764_799_999_999,
        Precision::Nanosecond => true,
    }
}

/// The text that a cell shows as; none for a timestamp that cannot be shown.
pub fn cell_text(cell: &CellValue) -> (text: Option<String>)
    ensures
        match text {
            Some(t) => shows(*cell, t@),
            None => !cell_in_range(*cell),
        },
{
    match cell {
        CellValue::Null => Some(String::new()),
        CellValue::Bool(b) => {
            proof {
                reveal_strlit("true");
                reveal_strlit("false");
            }
            let t = if *b {
                String::from_str("true")
            } else {
                String::from_str("false")
            };
            assert(*b ==> t@ =~= seq!['t', 'r', 'u', 'e']);
            assert(!*b ==> t@ =~= seq!['f', 'a', 'l', 's', 'e']);
            Some(t)
        },
        CellValue::Int(v) => Some(signed_decimal(*v)),
        CellValue::BigInt(v) => Some(signed_decimal(*v)),
        CellValue::UInt(v) => Some(decimal(*v)),
        CellValue::Text(s) => Some(s.clone()),
        CellValue::Timestamp(raw, precision) => {
            if in_display_range(*raw, *precision) {
                Some(local_time_text(*raw, *precision))
            } else {
                None
            }
        },
    }
}

/// The texts of one row; none if one of its cells cannot be shown.
pub fn row_texts(row: &Vec<CellValue>) -> (line: Option<Vec<String>>)
    ensures
        match line {
            Some(l) => row_shown(row@, l@),
            None => !row_in_range(row@),
        },
{
    let mut line: Vec<String> = Vec::new();
    let mut c: usize = 0;
    while c < row.len()
        invariant
            c <= row@.len(),
            line@.len() == c,
            forall|k: int| 0 <= k < c ==> shows(#[trigger] row@[k], line@[k]@),
        decreases row@.len() - c,
    {
        match cell_text(&row[c]) {
            Some(t) => {
                line.push(t);
            },
            None => {
                assert(!cell_in_range(row@[c as int]));
                return None;
            },
        }
        c = c + 1;
    }
    Some(line)
}

/// The count in the answer to a count statement.
pub fn count_in(count_row: &Option<Vec<CellValue>>) -> (count: Option<i64>)
    ensures
        count == count_of(*count_row),
{
    match count_row {
        None => None,
        Some(row) => {
            let mut found: Option<i64> = None;
            let mut i: usize = 0;
            while i < row.len()
                invariant
                    i <= row@.len(),
                    found == last_big_int(row@.take(i as int)),
                decreases row@.len() - i,
            {
                assert(row@.take(i + 1).drop_last() =~= row@.take(i as int));
                match &row[i] {
                    CellValue::BigInt(v) => {
                        found = Some(*v);
                    },
                    _ => {},
                }
                i = i + 1;
            }
            assert(row@.take(row@.len() as int) =~= row@);
            found
        },
    }
}

/// The number of pages that `total_size` rows fill: the least number of pages,
/// and at least one, that together hold all the rows.
pub fn total_page(total_size: i64) -> (pages: i64)
    ensures
        pages == page_count(total_size as int),
        pages >= 1,
        pages * PAGE_SIZE >= total_size,
        pages > 1 ==> (pages - 1) * PAGE_SIZE < total_size,
{
    if total_size <= 0 {
        1
    } else if total_size % PAGE_SIZE == 0 {
        total_size / PAGE_SIZE
    } else {
        total_size / PAGE_SIZE + 1
    }
}

impl STable {
    /// The rows to display for a reply: first the names of the columns, then
    /// one line of texts for each row, in the order of the reply; and with
    /// them the count, where the reply holds one.
    ///
    /// Fails exactly when a timestamp of the reply cannot be shown.
    pub fn get_rows(reply: &Reply) -> (out: Result<(Vec<Vec<String>>, Option<i64>), QueryError>)
        ensures
            match out {
                Ok((list, count)) => {
                    &&& rows_in_range(reply.rows@)
                    &&& list@.len() == reply.rows@.len() + 1
                    &&& texts(list@[0]@) == texts(reply.fields@)
                    &&& forall|r: int|
                        0 <= r < reply.rows@.len() ==> row_shown(
                            #[trigger] reply.rows@[r]@,
                            list@[r + 1]@,
                        )
                    &&& count == count_of(reply.count_row)
                },
                Err(e) => e == QueryError::TimestampRange && !rows_in_range(reply.rows@),
            },
    {
        let count = count_in(&reply.count_row);
        let mut list: Vec<Vec<String>> = Vec::new();
        list.push(clone_strings(&reply.fields));
        let mut r: usize = 0;
        while r < reply.rows.len()
            invariant
                r <= reply.rows@.len(),
                list@.len() == r + 1,
                texts(list@[0]@) == texts(reply.fields@),
                forall|k: int|
                    0 <= k < r ==> row_shown(#[trigger] reply.rows@[k]@, list@[k + 1]@),
            decreases reply.rows@.len() - r,
        {
            match row_texts(&reply.rows[r]) {
                Some(line) => {
                    list.push(line);
                },
                None => {
                    assert(!row_in_range(reply.rows@[r as int]@));
                    return Err(QueryError::TimestampRange);
                },
            }
            r = r + 1;
        }
        assert forall|k: int| 0 <= k < reply.rows@.len() implies row_in_range(
            #[trigger] reply.rows@[k]@,
        ) by {
            assert(row_shown(reply.rows@[k]@, list@[k + 1]@));
            assert forall|c: int| 0 <= c < reply.rows@[k]@.len() implies cell_in_range(
                #[trigger] reply.rows@[k]@[c],
            ) by {
                assert(shows(reply.rows@[k]@[c], list@[k + 1]@[c]@));
            }
        }
        Ok((list, count))
    }
}

} // verus!
