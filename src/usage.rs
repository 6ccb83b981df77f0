//! Rendering of the usage report: how often each application was launched,
//! as a Markdown-style table, and three such tables side by side.
use vstd::prelude::*;

verus! {

/// One row of the usage log summary: the launched path and how often.
#[derive(Debug)]
pub struct UsageRow {
    pub application: String,
    pub count: i64,
}

/// The final component of `path` without its extension, if `path` has a
/// final component.
pub uninterp spec fn file_stem_of(path: Seq<char>) -> Option<Seq<char>>;

/// Relies on `Path::file_stem` (read back with `to_string_lossy`): the file
/// name of the path's last component without its extension, when there is
/// one; the result depends on the path alone.
#[verifier::external_body]
fn file_stem(path: &str) -> (r: Option<String>)
    ensures
        match r {
            Some(s) => file_stem_of(path@) == Some(s@),
            None => file_stem_of(path@) is None,
        },
{
    std::path::Path::new(path).file_stem().map(|s| s.to_string_lossy().into_owned())
}

/// The text of each string.
pub open spec fn texts(v: Seq<String>) -> Seq<Seq<char>> {
    v.map_values(|s: String| s@)
}

/// The character of decimal digit `d`.
pub open spec fn digit_char(d: nat) -> char {
    ((d + 48) as u32) as char
}

/// The decimal digits of `n`, without leading zeros.
pub open spec fn digits(n: nat) -> Seq<char>
    decreases n,
{
    if n < 10 {
        seq![digit_char(n)]
    } else {
        digits(n / 10).push(digit_char(n % 10))
    }
}

/// `n` in decimal, with a leading minus sign when negative.
pub open spec fn decimal(n: int) -> Seq<char> {
    if n < 0 {
        seq!['-'] + digits((-n) as nat)
    } else {
        digits(n as nat)
    }
}

/// Relies on the `Display` impl of `i64` (through `to_string`): an optional
/// minus sign followed by the decimal digits, without leading zeros.
#[verifier::external_body]
fn to_decimal(n: i64) -> (r: String)
    ensures
        r@ == decimal(n as int),
{
    n.to_string()
}

/// `n` copies of `c` (none when `n` is not positive).
pub open spec fn repeated(c: char, n: int) -> Seq<char> {
    Seq::new(if n > 0 { n as nat } else { 0 }, |i: int| c)
}

/// `s` followed by spaces up to width `w`.
pub open spec fn pad_right(s: Seq<char>, w: int) -> Seq<char> {
    s + repeated(' ', w - s.len())
}

/// Spaces up to width `w`, then `s`.
pub open spec fn pad_left(s: Seq<char>, w: int) -> Seq<char> {
    repeated(' ', w - s.len()) + s
}

/// The length of the longest of `cells`.
pub open spec fn widest(cells: Seq<Seq<char>>) -> nat
    decreases cells.len(),
{
    if cells.len() == 0 {
        0
    } else {
        let rest = widest(cells.drop_last());
        if cells.last().len() > rest {
            cells.last().len()
        } else {
            rest
        }
    }
}

/// What the first column shows for a launched path: its file stem, or the
/// whole path when it has none.
pub open spec fn stem_cell(path: Seq<char>) -> Seq<char> {
    match file_stem_of(path) {
        Some(s) => s,
        None => path,
    }
}

/// The first column, heading included.
pub open spec fn name_cells(rows: Seq<UsageRow>) -> Seq<Seq<char>> {
    seq!["Application"@] + rows.map_values(|r: UsageRow| stem_cell(r.application@))
}

/// The second column, heading included.
pub open spec fn count_cells(rows: Seq<UsageRow>) -> Seq<Seq<char>> {
    seq!["Count"@] + rows.map_values(|r: UsageRow| decimal(r.count as int))
}

/// A table line holding the two given cells.
pub open spec fn table_line(a: Seq<char>, b: Seq<char>) -> Seq<char> {
    seq!['|', ' '] + a + seq![' ', '|', ' '] + b + seq![' ', '|']
}

/// The line under the heading: dashes across both columns, the second
/// marked right-aligned.
pub open spec fn rule_line(w1: int, w2: int) -> Seq<char> {
    seq!['|', ' '] + repeated('-', w1) + seq![' ', '|', ' '] + repeated('-', w2) + seq![':', ' ', '|']
}

/// The table of `rows`: a heading, a rule, and one line per row, the first
/// column as wide as its widest cell, the second one narrower than its
/// widest cell by one, each count right-aligned in five places.
pub open spec fn table(rows: Seq<UsageRow>) -> Seq<Seq<char>> {
    let w1 = widest(name_cells(rows)) as int;
    let w2 = widest(count_cells(rows)) - 1;
    seq![
        table_line(pad_right("Application"@, w1), pad_right("Count"@, w2)),
        rule_line(w1, w2),
    ] + Seq::new(
        rows.len(),
        |i: int| table_line(pad_right(stem_cell(rows[i].application@), w1), pad_left(decimal(rows[i].count as int), 5)),
    )
}

/// Appends `n` copies of the one character of `unit` to `s`.
fn push_repeated(s: &mut String, unit: &str, n: usize)
    requires
        unit@.len() == 1,
    ensures
        final(s)@ == old(s)@ + repeated(unit@[0], n as int),
{
    let mut i: usize = 0;
    while i < n
        invariant
            i <= n,
            unit@.len() == 1,
            s@ == old(s)@ + repeated(unit@[0], i as int),
        decreases n - i,
    {
        s.append(unit);
        assert(old(s)@ + repeated(unit@[0], (i + 1) as int) =~= old(s)@ + repeated(unit@[0], i as int) + unit@);
        i = i + 1;
    }
}

/// `s` then spaces to width `w`.
fn padded_right(s: &String, w: usize) -> (r: String)
    ensures
        r@ == pad_right(s@, w as int),
{
    let mut r = s.clone();
    let len = s.as_str().unicode_len();
    proof {
        reveal_strlit(" ");
    }
    if len < w {
        push_repeated(&mut r, " ", w - len);
    } else {
        assert(r@ =~= pad_right(s@, w as int));
    }
    r
}

/// Spaces to width `w`, then `s`.
fn padded_left(s: &String, w: usize) -> (r: String)
    ensures
        r@ == pad_left(s@, w as int),
{
    let mut r = String::new();
    let len = s.as_str().unicode_len();
    proof {
        reveal_strlit(" ");
    }
    if len < w {
        push_repeated(&mut r, " ", w - len);
    }
    r.append(s.as_str());
    assert(r@ =~= pad_left(s@, w as int));
    r
}

/// Joins two cells into a table line.
fn line(a: String, b: &String) -> (r: String)
    ensures
        r@ == table_line(a@, b@),
{
    proof {
        reveal_strlit("| ");
        reveal_strlit(" | ");
        reveal_strlit(" |");
    }
    let mut r = String::from_str("| ");
    r.append(a.as_str());
    r.append(" | ");
    r.append(b.as_str());
    r.append(" |");
    assert(r@ =~= table_line(a@, b@));
    r
}

/// The length of the longest of `cells`.
fn widest_of(cells: &Vec<String>) -> (w: usize)
    ensures
        w == widest(texts(cells@)),
{
    let ghost all = texts(cells@);
    let mut w: usize = 0;
    let mut i: usize = 0;
    while i < cells.len()
        invariant
            i <= cells@.len(),
            all == texts(cells@),
            w == widest(all.subrange(0, i as int)),
        decreases cells@.len() - i,
    {
        assert(all.subrange(0, i + 1).drop_last() =~= all.subrange(0, i as int));
        let len = cells[i].as_str().unicode_len();
        if len > w {
            w = len;
        }
        i = i + 1;
    }
    assert(all.subrange(0, all.len() as int) =~= all);
    w
}

/// The report table for `rows`, one string per line.
pub fn render_table(rows: &Vec<UsageRow>) -> (r: Vec<String>)
    ensures
        texts(r@) == table(rows@),
{
    let mut names: Vec<String> = Vec::new();
    let mut counts: Vec<String> = Vec::new();
    names.push(String::from_str("Application"));
    counts.push(String::from_str("Count"));
    let mut i: usize = 0;
    while i < rows.len()
        invariant
            i <= rows@.len(),
            names@.len() == i + 1,
            counts@.len() == i + 1,
            names@[0]@ == "Application"@,
            counts@[0]@ == "Count"@,
            forall|k: int| 0 <= k < i ==> #[trigger] names@[k + 1]@ == stem_cell(rows@[k].application@),
            forall|k: int| 0 <= k < i ==> #[trigger] counts@[k + 1]@ == decimal(rows@[k].count as int),
        decreases rows@.len() - i,
    {
        let name = match file_stem(rows[i].application.as_str()) {
            Some(s) => s,
            None => rows[i].application.clone(),
        };
        names.push(name);
        counts.push(to_decimal(rows[i].count));
        i = i + 1;
    }
    assert forall|k: int| 1 <= k < names@.len() implies #[trigger] texts(names@)[k]
        == name_cells(rows@)[k] by {
        assert(names@[(k - 1) + 1]@ == stem_cell(rows@[k - 1].application@));
    }
    assert forall|k: int| 1 <= k < counts@.len() implies #[trigger] texts(counts@)[k]
        == count_cells(rows@)[k] by {
        assert(counts@[(k - 1) + 1]@ == decimal(rows@[k - 1].count as int));
    }
    assert(texts(names@) =~= name_cells(rows@));
    assert(texts(counts@) =~= count_cells(rows@));
    let w1 = widest_of(&names);
    let w2_full = widest_of(&counts);
    proof {
        reveal_strlit("Count");
        let cells = texts(counts@);
        assert(cells.subrange(0, 1).drop_last() =~= Seq::<Seq<char>>::empty());
        lemma_widest_at_least(cells, 0);
    }
    let w2 = w2_full - 1;

    let mut lines: Vec<String> = Vec::new();
    lines.push(line(padded_right(&names[0], w1), &padded_right(&counts[0], w2)));
    let mut rule = String::from_str("| ");
    proof {
        reveal_strlit("| ");
        reveal_strlit("-");
        reveal_strlit(" | ");
        reveal_strlit(": |");
    }
    push_repeated(&mut rule, "-", w1);
    rule.append(" | ");
    push_repeated(&mut rule, "-", w2);
    rule.append(": |");
    assert(rule@ =~= rule_line(w1 as int, w2 as int));
    lines.push(rule);
    let mut j: usize = 0;
    while j < rows.len()
        invariant
            j <= rows@.len(),
            names@.len() == rows@.len() + 1,
            counts@.len() == rows@.len() + 1,
            forall|k: int| 0 <= k < rows@.len() ==> #[trigger] names@[k + 1]@ == stem_cell(rows@[k].application@),
            forall|k: int| 0 <= k < rows@.len() ==> #[trigger] counts@[k + 1]@ == decimal(rows@[k].count as int),
            w1 == widest(name_cells(rows@)),
            w2 == widest(count_cells(rows@)) - 1,
            lines@.len() == j + 2,
            forall|k: int| 0 <= k < j + 2 ==> #[trigger] lines@[k]@ == table(rows@)[k],
        decreases rows@.len() - j,
    {
        let cell = padded_left(&counts[j + 1], 5);
        lines.push(line(padded_right(&names[j + 1], w1), &cell));
        j = j + 1;
    }
    assert(texts(lines@) =~= table(rows@));
    lines
}

/// The widest cell is at least as long as any one cell.
proof fn lemma_widest_at_least(cells: Seq<Seq<char>>, k: int)
    requires
        0 <= k < cells.len(),
    ensures
        widest(cells) >= cells[k].len(),
    decreases cells.len(),
{
    if k < cells.len() - 1 {
        lemma_widest_at_least(cells.drop_last(), k);
    }
}

/// The three tables' lines joined side by side, as many lines as the
/// shortest table has.
pub open spec fn side_by_side_lines(a: Seq<Seq<char>>, b: Seq<Seq<char>>, c: Seq<Seq<char>>) -> Seq<Seq<char>> {
    let n = if a.len() <= b.len() && a.len() <= c.len() {
        a.len()
    } else if b.len() <= c.len() {
        b.len()
    } else {
        c.len()
    };
    Seq::new(n, |i: int| a[i] + repeated(' ', 4) + b[i] + repeated(' ', 4) + c[i])
}

/// Joins the lines of three tables side by side, four spaces apart.
pub fn side_by_side(day: &Vec<String>, week: &Vec<String>, month: &Vec<String>) -> (r: Vec<String>)
    ensures
        texts(r@) == side_by_side_lines(
            texts(day@),
            texts(week@),
            texts(month@),
        ),
{
    let ghost target = side_by_side_lines(
        texts(day@),
        texts(week@),
        texts(month@),
    );
    let n = if day.len() <= week.len() && day.len() <= month.len() {
        day.len()
    } else if week.len() <= month.len() {
        week.len()
    } else {
        month.len()
    };
    proof {
        reveal_strlit("    ");
        assert("    "@ =~= repeated(' ', 4));
    }
    let mut out: Vec<String> = Vec::new();
    let mut i: usize = 0;
    while i < n
        invariant
            i <= n,
            n == target.len(),
            n <= day@.len() && n <= week@.len() && n <= month@.len(),
            target == side_by_side_lines(
                texts(day@),
                texts(week@),
                texts(month@),
            ),
            "    "@ == repeated(' ', 4),
            out@.len() == i,
            forall|k: int| 0 <= k < i ==> #[trigger] out@[k]@ == target[k],
        decreases n - i,
    {
        let mut s = day[i].clone();
        s.append("    ");
        s.append(week[i].as_str());
        s.append("    ");
        s.append(month[i].as_str());
        assert(s@ =~= target[i as int]);
        out.push(s);
        i = i + 1;
    }
    assert(texts(out@) =~= target);
    out
}

} // verus!
