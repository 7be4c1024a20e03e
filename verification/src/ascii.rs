//! Warehouses written as ASCII maps.
//!
//! Each non-blank line of the map is a row of the grid, top row first, after
//! spaces, tabs and carriage returns at both ends are trimmed off; blank lines
//! are skipped. In a row, `.` is an empty cell, `R` a robot, `S` a shelf, `G`
//! a goal and `X` a shelf standing on a goal. Robots, shelves and goals are
//! numbered from 0 in reading order, each kind on its own: the n-th shelf
//! belongs to the n-th goal. Robots face north and carry nothing.

use vstd::prelude::*;

use crate::entity::{Goal, Robot, Shelf, Warehouse, WarehouseView};
use crate::grid::Position;
use crate::laws::robots_on_grid;
use crate::types::Direction;

verus! {

// ---------------------------------------------------------------------------
// The map, as functions on character sequences
// ---------------------------------------------------------------------------

/// Characters trimmed from both ends of a line.
pub open spec fn is_blank(c: char) -> bool {
    c == ' ' || c == '\t' || c == '\r'
}

/// The lines of a text, split at each `'\n'` (a text has at least one line).
pub open spec fn split_lines(s: Seq<char>) -> Seq<Seq<char>>
    decreases s.len(),
{
    if s.len() == 0 {
        seq![Seq::empty()]
    } else {
        let prev = split_lines(s.drop_last());
        if s.last() == '\n' {
            prev.push(Seq::empty())
        } else {
            prev.update(prev.len() - 1, prev.last().push(s.last()))
        }
    }
}

/// A line without its leading blanks.
pub open spec fn trim_start(l: Seq<char>) -> Seq<char>
    decreases l.len(),
{
    if l.len() > 0 && is_blank(l[0]) {
        trim_start(l.drop_first())
    } else {
        l
    }
}

/// A line without its trailing blanks.
pub open spec fn trim_end(l: Seq<char>) -> Seq<char>
    decreases l.len(),
{
    if l.len() > 0 && is_blank(l.last()) {
        trim_end(l.drop_last())
    } else {
        l
    }
}

/// A line without blanks at either end.
pub open spec fn trim(l: Seq<char>) -> Seq<char> {
    trim_end(trim_start(l))
}

/// The trimmed lines that are not empty, in order.
pub open spec fn rows_of(lines: Seq<Seq<char>>) -> Seq<Seq<char>>
    decreases lines.len(),
{
    if lines.len() == 0 {
        Seq::empty()
    } else {
        let prev = rows_of(lines.drop_last());
        let t = trim(lines.last());
        if t.len() > 0 {
            prev.push(t)
        } else {
            prev
        }
    }
}

/// The rows of a map.
pub open spec fn map_rows(s: Seq<char>) -> Seq<Seq<char>> {
    rows_of(split_lines(s))
}

/// The width of a map: the length of its first row, 0 for a map without rows.
pub open spec fn map_width(rows: Seq<Seq<char>>) -> nat {
    if rows.len() == 0 {
        0
    } else {
        rows[0].len()
    }
}

/// The characters a map cell may hold.
pub open spec fn is_map_char(c: char) -> bool {
    c == '.' || c == 'R' || c == 'S' || c == 'G' || c == 'X'
}

/// Robots, shelves and goals found so far.
pub ghost struct Layout {
    pub robots: Seq<Robot>,
    pub shelves: Seq<Shelf>,
    pub goals: Seq<Goal>,
}

/// What one cell adds to the layout.
pub open spec fn place_cell(acc: Layout, c: char, p: Position) -> Layout {
    let robot = Robot { id: acc.robots.len() as usize, pos: p, direction: Direction::North, carrying: None };
    let shelf = Shelf { id: acc.shelves.len() as usize, pos: p };
    let goal = Goal { id: acc.goals.len() as usize, pos: p };
    if c == 'R' {
        Layout { robots: acc.robots.push(robot), ..acc }
    } else if c == 'S' {
        Layout { shelves: acc.shelves.push(shelf), ..acc }
    } else if c == 'G' {
        Layout { goals: acc.goals.push(goal), ..acc }
    } else if c == 'X' {
        Layout { shelves: acc.shelves.push(shelf), goals: acc.goals.push(goal), ..acc }
    } else {
        acc
    }
}

/// The layout after the first `n` cells of row `y`.
pub open spec fn scan_row(acc: Layout, row: Seq<char>, y: int, n: nat) -> Layout
    decreases n,
{
    if n == 0 {
        acc
    } else {
        place_cell(scan_row(acc, row, y, (n - 1) as nat), row[n - 1], Position { x: (n - 1) as i32, y: y as i32 })
    }
}

/// The layout of the first `n` rows.
pub open spec fn scan_rows(rows: Seq<Seq<char>>, n: nat) -> Layout
    decreases n,
{
    if n == 0 {
        Layout { robots: Seq::empty(), shelves: Seq::empty(), goals: Seq::empty() }
    } else {
        scan_row(scan_rows(rows, (n - 1) as nat), rows[n - 1], n - 1, rows[n - 1].len())
    }
}

pub open spec fn msg_ragged() -> Seq<char> {
    "Rows of the warehouse map differ in length"@
}

pub open spec fn msg_unknown_char() -> Seq<char> {
    "Unknown character in the warehouse map"@
}

pub open spec fn msg_too_large() -> Seq<char> {
    "Warehouse map is too large"@
}

/// Some row differs in length from the first.
pub open spec fn is_ragged(rows: Seq<Seq<char>>) -> bool {
    exists|y: int| 0 <= y < rows.len() && (#[trigger] rows[y]).len() != map_width(rows)
}

/// Some cell holds a character that is not part of the map language.
pub open spec fn has_unknown_char(rows: Seq<Seq<char>>) -> bool {
    exists|y: int, x: int| 0 <= y < rows.len() && 0 <= x < rows[y].len() && !is_map_char(#[trigger] rows[y][x])
}

/// The warehouse a map describes, with its clock at 0; or the error: rows
/// of different lengths, then an unknown character, then a grid whose sides
/// do not fit in an `i32`.
pub open spec fn parse_map(s: Seq<char>) -> Result<WarehouseView, Seq<char>> {
    let rows = map_rows(s);
    let width = map_width(rows);
    if is_ragged(rows) {
        Err(msg_ragged())
    } else if has_unknown_char(rows) {
        Err(msg_unknown_char())
    } else if width > i32::MAX || rows.len() > i32::MAX {
        Err(msg_too_large())
    } else {
        let l = scan_rows(rows, rows.len());
        Ok(
            WarehouseView {
                width: width as usize,
                height: rows.len() as usize,
                robots: l.robots,
                shelves: l.shelves,
                goals: l.goals,
                clock: 0,
            },
        )
    }
}

// ---------------------------------------------------------------------------
// Lemmas
// ---------------------------------------------------------------------------

/// Views of a sequence of character vectors.
pub open spec fn views_of(v: Seq<Vec<char>>) -> Seq<Seq<char>> {
    v.map_values(|l: Vec<char>| l@)
}

proof fn lemma_split_lines_nonempty(s: Seq<char>)
    ensures
        split_lines(s).len() >= 1,
    decreases s.len(),
{
    if s.len() > 0 {
        lemma_split_lines_nonempty(s.drop_last());
    }
}

/// Trimming leading blanks is taking the suffix from the first non-blank.
proof fn lemma_trim_start(l: Seq<char>, s: int)
    requires
        0 <= s <= l.len(),
        forall|j: int| 0 <= j < s ==> is_blank(#[trigger] l[j]),
        s == l.len() || !is_blank(l[s]),
    ensures
        trim_start(l) == l.subrange(s, l.len() as int),
    decreases s,
{
    if s > 0 {
        let d = l.drop_first();
        assert forall|j: int| 0 <= j < s - 1 implies is_blank(#[trigger] d[j]) by {
            assert(d[j] == l[j + 1]);
        }
        if s - 1 < d.len() {
            assert(d[s - 1] == l[s]);
        }
        lemma_trim_start(d, s - 1);
        assert(d.subrange(s - 1, d.len() as int) =~= l.subrange(s, l.len() as int));
    } else {
        assert(l.subrange(0, l.len() as int) =~= l);
    }
}

/// Trimming trailing blanks is taking the prefix up to the last non-blank.
proof fn lemma_trim_end(l: Seq<char>, e: int)
    requires
        0 <= e <= l.len(),
        forall|j: int| e <= j < l.len() ==> is_blank(#[trigger] l[j]),
        e == 0 || !is_blank(l[e - 1]),
    ensures
        trim_end(l) == l.subrange(0, e),
    decreases l.len() - e,
{
    if e < l.len() {
        let d = l.drop_last();
        assert forall|j: int| e <= j < d.len() implies is_blank(#[trigger] d[j]) by {
            assert(d[j] == l[j]);
        }
        if e > 0 {
            assert(d[e - 1] == l[e - 1]);
        }
        lemma_trim_end(d, e);
        assert(d.subrange(0, e) =~= l.subrange(0, e));
    } else {
        if e > 0 {
            assert(l.last() == l[e - 1]);
        }
        assert(l.subrange(0, e) =~= l);
    }
}

// ---------------------------------------------------------------------------
// Executable parsing
// ---------------------------------------------------------------------------

fn is_blank_char(c: char) -> (b: bool)
    ensures
        b == is_blank(c),
{
    c == ' ' || c == '\t' || c == '\r'
}

/// The characters of a string, in order.
fn chars_of(map: &str) -> (v: Vec<char>)
    ensures
        v@ == map@,
{
    let mut v: Vec<char> = Vec::new();
    for c in it: map.chars()
        invariant
            v@ == it.seq().take(it.index() as int),
            it.seq() == map@,
    {
        v.push(c);
    }
    v
}

/// The lines of a text.
fn split_into_lines(chars: &Vec<char>) -> (lines: Vec<Vec<char>>)
    ensures
        views_of(lines@) == split_lines(chars@),
{
    let mut done: Vec<Vec<char>> = Vec::new();
    let mut current: Vec<char> = Vec::new();
    let n = chars.len();
    let mut i: usize = 0;
    assert(chars@.take(0) =~= Seq::<char>::empty());
    assert(views_of(done@).push(current@) =~= split_lines(chars@.take(0)));
    while i < n
        invariant
            n == chars@.len(),
            i <= n,
            views_of(done@).push(current@) == split_lines(chars@.take(i as int)),
        decreases n - i,
    {
        let c = chars[i];
        let ghost before = chars@.take(i as int);
        assert(chars@.take(i + 1).drop_last() =~= before);
        assert(chars@.take(i + 1).last() == c);
        if c == '\n' {
            done.push(current);
            current = Vec::new();
            assert(views_of(done@).push(current@) =~= split_lines(before).push(Seq::empty()));
        } else {
            let ghost old_done = done@;
            let ghost old_current = current@;
            current.push(c);
            assert(views_of(done@).push(current@) =~= views_of(old_done).push(old_current).update(
                views_of(old_done).len() as int,
                old_current.push(c),
            ));
        }
        i = i + 1;
    }
    assert(chars@.take(n as int) =~= chars@);
    done.push(current);
    assert(views_of(done@) =~= split_lines(chars@));
    done
}

/// A line without blanks at either end.
fn trimmed(line: &Vec<char>) -> (t: Vec<char>)
    ensures
        t@ == trim(line@),
{
    let n = line.len();
    let mut s: usize = 0;
    while s < n && is_blank_char(line[s])
        invariant
            n == line@.len(),
            s <= n,
            forall|j: int| 0 <= j < s ==> is_blank(#[trigger] line@[j]),
        decreases n - s,
    {
        s = s + 1;
    }
    proof {
        lemma_trim_start(line@, s as int);
    }
    let ghost front = line@.subrange(s as int, n as int);
    let mut e: usize = n;
    while e > s && is_blank_char(line[e - 1])
        invariant
            n == line@.len(),
            s <= e <= n,
            front == line@.subrange(s as int, n as int),
            forall|j: int| e <= j < n ==> is_blank(#[trigger] line@[j]),
        decreases e - s,
    {
        e = e - 1;
    }
    proof {
        assert forall|j: int| e - s <= j < front.len() implies is_blank(#[trigger] front[j]) by {
            assert(front[j] == line@[j + s]);
        }
        if e > s {
            assert(front[e - s - 1] == line@[e - 1]);
        }
        lemma_trim_end(front, e - s);
    }
    let mut t: Vec<char> = Vec::new();
    let mut k: usize = s;
    while k < e
        invariant
            n == line@.len(),
            s <= k <= e <= n,
            t@ == line@.subrange(s as int, k as int),
        decreases e - k,
    {
        t.push(line[k]);
        k = k + 1;
        assert(t@ =~= line@.subrange(s as int, k as int));
    }
    assert(t@ =~= front.subrange(0, e - s));
    t
}

/// The trimmed non-empty lines.
fn rows_from_lines(lines: &Vec<Vec<char>>) -> (rows: Vec<Vec<char>>)
    ensures
        views_of(rows@) == rows_of(views_of(lines@)),
{
    let mut rows: Vec<Vec<char>> = Vec::new();
    let n = lines.len();
    let mut i: usize = 0;
    assert(views_of(lines@).take(0) =~= Seq::<Seq<char>>::empty());
    assert(views_of(rows@) =~= rows_of(views_of(lines@).take(0)));
    while i < n
        invariant
            n == lines@.len(),
            i <= n,
            views_of(rows@) == rows_of(views_of(lines@).take(i as int)),
        decreases n - i,
    {
        let t = trimmed(&lines[i]);
        let ghost prefix = views_of(lines@).take(i + 1);
        assert(prefix.drop_last() =~= views_of(lines@).take(i as int));
        assert(prefix.last() == lines@[i as int]@);
        if t.len() > 0 {
            let ghost old_rows = rows@;
            rows.push(t);
            assert(views_of(rows@) =~= views_of(old_rows).push(t@));
        }
        i = i + 1;
    }
    assert(views_of(lines@).take(n as int) =~= views_of(lines@));
    rows
}

/// The layout of a warehouse view.
pub open spec fn layout_of(w: WarehouseView) -> Layout {
    Layout { robots: w.robots, shelves: w.shelves, goals: w.goals }
}

impl Warehouse {
    /// Build a warehouse from an ASCII map (see the module documentation);
    /// its clock is at 0. Rows of different lengths, characters other than
    /// `.RSGX`, and sides longer than `i32::MAX` are errors.
    pub fn from_ascii(map: &str) -> (r: Result<Warehouse, String>)
        ensures
            match parse_map(map@) {
                Ok(v) => r matches Ok(w) && w@ == v,
                Err(m) => r matches Err(e) && e@ == m,
            },
    {
        let chars = chars_of(map);
        let lines = split_into_lines(&chars);
        let rows = rows_from_lines(&lines);
        let ghost rs = views_of(rows@);
        assert(rs == map_rows(map@));
        let height = rows.len();
        let width = if height == 0 { 0 } else { rows[0].len() };
        assert(width == map_width(rs));
        // Every row as wide as the first.
        let mut y: usize = 0;
        while y < height
            invariant
                height == rows@.len(),
                rs == views_of(rows@),
                rs == map_rows(map@),
                width == map_width(rs),
                y <= height,
                forall|j: int| 0 <= j < y ==> (#[trigger] rs[j]).len() == width,
            decreases height - y,
        {
            if rows[y].len() != width {
                assert(rs[y as int].len() != map_width(rs));
                return Err("Rows of the warehouse map differ in length".to_owned());
            }
            y = y + 1;
        }
        assert(!is_ragged(rs));
        // Every cell holds a map character.
        let mut y: usize = 0;
        while y < height
            invariant
                height == rows@.len(),
                rs == views_of(rows@),
                rs == map_rows(map@),
                width == map_width(rs),
                !is_ragged(rs),
                y <= height,
                forall|j: int, i: int| 0 <= j < y && 0 <= i < rs[j].len() ==> is_map_char(#[trigger] rs[j][i]),
            decreases height - y,
        {
            let mut x: usize = 0;
            assert(rs[y as int].len() == width);
            while x < width
                invariant
                    height == rows@.len(),
                    rs == views_of(rows@),
                    rs == map_rows(map@),
                    !is_ragged(rs),
                    width == map_width(rs),
                    y < height,
                    rs[y as int].len() == width,
                    x <= width,
                    forall|j: int, i: int| 0 <= j < y && 0 <= i < rs[j].len() ==> is_map_char(#[trigger] rs[j][i]),
                    forall|i: int| 0 <= i < x ==> is_map_char(#[trigger] rs[y as int][i]),
                decreases width - x,
            {
                let c = rows[y][x];
                assert(c == rs[y as int][x as int]);
                if !(c == '.' || c == 'R' || c == 'S' || c == 'G' || c == 'X') {
                    assert(has_unknown_char(rs)) by {
                        assert(!is_map_char(rs[y as int][x as int]));
                    }
                    return Err("Unknown character in the warehouse map".to_owned());
                }
                x = x + 1;
            }
            y = y + 1;
        }
        assert(!has_unknown_char(rs));
        if width > 0x7fff_ffff || height > 0x7fff_ffff {
            return Err("Warehouse map is too large".to_owned());
        }
        // Place the robots, shelves and goals.
        let mut warehouse = Warehouse::new(width, height);
        let mut y: usize = 0;
        while y < height
            invariant
                height == rows@.len(),
                rs == views_of(rows@),
                rs == map_rows(map@),
                width == map_width(rs),
                !is_ragged(rs),
                width <= i32::MAX,
                height <= i32::MAX,
                y <= height,
                warehouse@.width == width,
                warehouse@.height == height,
                warehouse@.clock == 0,
                layout_of(warehouse@) == scan_rows(rs, y as nat),
            decreases height - y,
        {
            let mut x: usize = 0;
            assert(rs[y as int].len() == width);
            while x < width
                invariant
                    height == rows@.len(),
                    rs == views_of(rows@),
                    rs[y as int].len() == width,
                    width <= i32::MAX,
                    height <= i32::MAX,
                    y < height,
                    x <= width,
                    warehouse@.width == width,
                    warehouse@.height == height,
                    warehouse@.clock == 0,
                    layout_of(warehouse@) == scan_row(scan_rows(rs, y as nat), rs[y as int], y as int, x as nat),
                decreases width - x,
            {
                let c = rows[y][x];
                assert(c == rs[y as int][x as int]);
                let p = Position::new(x as i32, y as i32);
                if c == 'R' {
                    let id = warehouse.robots.len();
                    warehouse.add_robot(Robot { id, pos: p, direction: Direction::North, carrying: None });
                } else if c == 'S' {
                    let id = warehouse.shelves.len();
                    warehouse.add_shelf(Shelf { id, pos: p });
                } else if c == 'G' {
                    let id = warehouse.goals.len();
                    warehouse.add_goal(Goal { id, pos: p });
                } else if c == 'X' {
                    let shelf_id = warehouse.shelves.len();
                    let goal_id = warehouse.goals.len();
                    warehouse.add_shelf(Shelf { id: shelf_id, pos: p });
                    warehouse.add_goal(Goal { id: goal_id, pos: p });
                }
                x = x + 1;
            }
            y = y + 1;
        }
        Ok(warehouse)
    }
}

// ---------------------------------------------------------------------------
// Laws of parsed maps
// ---------------------------------------------------------------------------

/// `a` comes before `b` in reading order.
pub open spec fn reads_before(a: Position, b: Position) -> bool {
    a.y < b.y || (a.y == b.y && a.x < b.x)
}

/// The entities of a layout are numbered by their index, lie within `width`
/// columns and from row 0 on, all read before `bound`; the robots in strictly
/// increasing reading order.
pub open spec fn layout_ordered(l: Layout, bound: Position, width: int) -> bool {
    &&& forall|k: int| 0 <= k < l.robots.len() ==> (#[trigger] l.robots[k]).id == k as usize
    &&& forall|k: int| 0 <= k < l.shelves.len() ==> (#[trigger] l.shelves[k]).id == k as usize
    &&& forall|k: int| 0 <= k < l.goals.len() ==> (#[trigger] l.goals[k]).id == k as usize
    &&& forall|k: int|
        0 <= k < l.robots.len() ==> {
            let p = (#[trigger] l.robots[k]).pos;
            &&& 0 <= p.x < width
            &&& 0 <= p.y
            &&& reads_before(p, bound)
        }
    &&& forall|k1: int, k2: int|
        0 <= k1 < k2 < l.robots.len() ==> reads_before(
            (#[trigger] l.robots[k1]).pos,
            (#[trigger] l.robots[k2]).pos,
        )
}

proof fn lemma_scan_row_ordered(acc: Layout, row: Seq<char>, y: int, n: nat)
    requires
        n <= row.len() <= i32::MAX,
        0 <= y <= i32::MAX,
        layout_ordered(acc, Position { x: 0, y: y as i32 }, row.len() as int),
    ensures
        layout_ordered(scan_row(acc, row, y, n), Position { x: n as i32, y: y as i32 }, row.len() as int),
    decreases n,
{
    if n > 0 {
        lemma_scan_row_ordered(acc, row, y, (n - 1) as nat);
        let prev = scan_row(acc, row, y, (n - 1) as nat);
        let p = Position { x: (n - 1) as i32, y: y as i32 };
        let bound = Position { x: n as i32, y: y as i32 };
        assert(p.x == n - 1 && bound.x == n);
        let next = scan_row(acc, row, y, n);
        assert(next == place_cell(prev, row[n - 1], p));
        assert forall|k: int| 0 <= k < prev.robots.len() implies reads_before(
            (#[trigger] prev.robots[k]).pos,
            bound,
        ) by {
            assert(reads_before(prev.robots[k].pos, p));
        }
        if row[n - 1] == 'R' {
            assert(next.robots == prev.robots.push(next.robots.last()));
            assert forall|k1: int, k2: int|
                0 <= k1 < k2 < next.robots.len() implies reads_before(
                (#[trigger] next.robots[k1]).pos,
                (#[trigger] next.robots[k2]).pos,
            ) by {
                if k2 == next.robots.len() - 1 {
                    assert(reads_before(prev.robots[k1].pos, p));
                } else {
                    assert(next.robots[k1] == prev.robots[k1]);
                    assert(next.robots[k2] == prev.robots[k2]);
                }
            }
        }
    }
}

proof fn lemma_scan_rows_ordered(rows: Seq<Seq<char>>, n: nat, width: int)
    requires
        n <= rows.len() <= i32::MAX,
        0 <= width <= i32::MAX,
        forall|y: int| 0 <= y < rows.len() ==> (#[trigger] rows[y]).len() == width,
    ensures
        layout_ordered(scan_rows(rows, n), Position { x: 0, y: n as i32 }, width),
    decreases n,
{
    if n > 0 {
        let prev = scan_rows(rows, (n - 1) as nat);
        lemma_scan_rows_ordered(rows, (n - 1) as nat, width);
        lemma_scan_row_ordered(prev, rows[n - 1], n - 1, rows[n - 1].len());
    }
}

/// A warehouse read from a map has its robots on the grid, one robot per
/// cell, and robots, shelves and goals numbered by their index (as a `usize`)
/// in reading order, so that the n-th shelf and the n-th goal share their id.
pub proof fn law_parsed_map_is_sound(s: Seq<char>)
    requires
        parse_map(s) is Ok,
    ensures
        ({
            let v = parse_map(s)->Ok_0;
            &&& robots_on_grid(v)
            &&& forall|a: int, b: int|
                0 <= a < v.robots.len() && 0 <= b < v.robots.len() && a != b ==> (#[trigger] v.robots[a]).pos
                    != (#[trigger] v.robots[b]).pos
            &&& forall|k: int| 0 <= k < v.robots.len() ==> (#[trigger] v.robots[k]).id == k as usize
            &&& forall|k: int| 0 <= k < v.shelves.len() ==> (#[trigger] v.shelves[k]).id == k as usize
            &&& forall|k: int| 0 <= k < v.goals.len() ==> (#[trigger] v.goals[k]).id == k as usize
        }),
{
    let rows = map_rows(s);
    let width = map_width(rows) as int;
    assert forall|y: int| 0 <= y < rows.len() implies (#[trigger] rows[y]).len() == width by {
        if rows[y].len() != width {
            assert(is_ragged(rows));
        }
    }
    lemma_scan_rows_ordered(rows, rows.len(), width);
    let v = parse_map(s)->Ok_0;
    assert forall|a: int, b: int|
        0 <= a < v.robots.len() && 0 <= b < v.robots.len() && a != b implies (#[trigger] v.robots[a]).pos
        != (#[trigger] v.robots[b]).pos by {
        if a < b {
            assert(reads_before(v.robots[a].pos, v.robots[b].pos));
        } else {
            assert(reads_before(v.robots[b].pos, v.robots[a].pos));
        }
    }
}

} // verus!
