use vstd::prelude::*;

verus! {

use crate::cell::Cell;

// ---------------------------------------------------------------------------
// Specification of the run-length clues ("indications")
// ---------------------------------------------------------------------------

/// Run lengths of the maximal runs of `true` in `s[i..]`, in scan order,
/// where `cur` is the length of the run that ends right before position `i`.
pub open spec fn runs_from(s: Seq<bool>, i: int, cur: int) -> Seq<int>
    decreases s.len() - i
        when 0 <= i <= s.len()
{
    if i == s.len() {
        if cur != 0 {
            seq![cur]
        } else {
            Seq::empty()
        }
    } else if s[i] {
        runs_from(s, i + 1, cur + 1)
    } else if cur != 0 {
        seq![cur] + runs_from(s, i + 1, 0)
    } else {
        runs_from(s, i + 1, 0)
    }
}

/// The clue list of one row or column: the run lengths of the maximal runs of
/// hidden-active cells, listed from the last-encountered run to the first.
pub open spec fn indications_of(s: Seq<bool>) -> Seq<int> {
    runs_from(s, 0, 0).reverse()
}

/// The hidden activity pattern of a line, read through its cell indices from
/// the grid's flat cell store.
pub open spec fn line_actives(idxs: Seq<usize>, store: Seq<Cell>) -> Seq<bool> {
    idxs.map_values(|k: usize| store[k as int].active)
}

// ---------------------------------------------------------------------------
// Specification of the printable clue text
// ---------------------------------------------------------------------------

pub open spec fn digit_char(d: int) -> char {
    if d == 0 {
        '0'
    } else if d == 1 {
        '1'
    } else if d == 2 {
        '2'
    } else if d == 3 {
        '3'
    } else if d == 4 {
        '4'
    } else if d == 5 {
        '5'
    } else if d == 6 {
        '6'
    } else if d == 7 {
        '7'
    } else if d == 8 {
        '8'
    } else {
        '9'
    }
}

/// The decimal digits of `n`, most significant first.
pub open spec fn digits_of(n: int) -> Seq<char>
    decreases n,
{
    if n < 10 {
        seq![digit_char(n)]
    } else {
        digits_of(n / 10).push(digit_char(n % 10))
    }
}

/// A block of `n` blank characters.
pub open spec fn spaces(n: int) -> Seq<char>
    decreases n,
{
    if n <= 0 {
        Seq::empty()
    } else {
        spaces(n - 1).push(' ')
    }
}

/// The printable clue string of an indication list: `unit` leading blanks,
/// then for each indication its digits in reverse character order followed by
/// `unit` blanks.
pub open spec fn clue_text(inds: Seq<int>, unit: int) -> Seq<char>
    decreases inds.len(),
{
    if inds.len() == 0 {
        spaces(unit)
    } else {
        clue_text(inds.drop_last(), unit) + digits_of(inds.last()).reverse() + spaces(unit)
    }
}

/// The number of characters the clue string of an indication list occupies:
/// `unit` plus, per indication, `unit` plus its decimal digit count.
pub open spec fn clue_space(inds: Seq<int>, unit: int) -> int
    decreases inds.len(),
{
    if inds.len() == 0 {
        unit
    } else {
        clue_space(inds.drop_last(), unit) + unit + digits_of(inds.last()).len()
    }
}

/// The largest clue-string width over a set of lines.
pub open spec fn max_clue_space(lines: Seq<Line>) -> int
    decreases lines.len(),
{
    if lines.len() == 0 {
        0
    } else {
        let prev = max_clue_space(lines.drop_last());
        let w = clue_space(lines.last().inds(), lines.last().space_equivalent as int);
        if w > prev {
            w
        } else {
            prev
        }
    }
}

pub proof fn lemma_spaces_len(n: int)
    requires
        n >= 0,
    ensures
        spaces(n).len() == n,
    decreases n,
{
    if n > 0 {
        lemma_spaces_len(n - 1);
    }
}

/// The margin formula and the rendered clue string agree: the width reserved
/// for a line's clues is exactly the length of its clue text.
pub proof fn lemma_clue_space_is_text_len(inds: Seq<int>, unit: int)
    requires
        unit >= 0,
    ensures
        clue_space(inds, unit) == clue_text(inds, unit).len(),
    decreases inds.len(),
{
    lemma_spaces_len(unit);
    if inds.len() > 0 {
        lemma_clue_space_is_text_len(inds.drop_last(), unit);
        assert(digits_of(inds.last()).reverse().len() == digits_of(inds.last()).len());
    }
}

/// An empty indication list renders as exactly the `unit` leading blanks.
pub proof fn lemma_clue_text_empty(unit: int)
    ensures
        clue_text(Seq::<int>::empty(), unit) == spaces(unit),
{
}

proof fn lemma_runs_all_inactive(s: Seq<bool>, i: int)
    requires
        0 <= i <= s.len(),
        forall|j: int| i <= j < s.len() ==> !s[j],
    ensures
        runs_from(s, i, 0) == Seq::<int>::empty(),
    decreases s.len() - i,
{
    if i < s.len() {
        lemma_runs_all_inactive(s, i + 1);
    }
}

proof fn lemma_runs_skip_inactive_prefix(s: Seq<bool>, j: int, i: int)
    requires
        0 <= j <= i <= s.len(),
        forall|k: int| j <= k < i ==> !s[k],
    ensures
        runs_from(s, j, 0) == runs_from(s, i, 0),
    decreases i - j,
{
    if j < i {
        lemma_runs_skip_inactive_prefix(s, j + 1, i);
    }
}

/// A line whose pattern has a single isolated active cell has the indication
/// list `[1]`.
pub proof fn lemma_single_active_indications(s: Seq<bool>, i: int)
    requires
        0 <= i < s.len(),
        s[i],
        forall|j: int| 0 <= j < s.len() && j != i ==> !s[j],
    ensures
        indications_of(s) == seq![1int],
{
    lemma_runs_skip_inactive_prefix(s, 0, i);
    assert(runs_from(s, i, 0) == runs_from(s, i + 1, 1));
    if i + 1 == s.len() {
        assert(runs_from(s, i + 1, 1) =~= seq![1int]);
    } else {
        lemma_runs_all_inactive(s, i + 2);
        assert(runs_from(s, i + 1, 1) == seq![1int] + runs_from(s, i + 2, 0));
        assert(seq![1int] + Seq::<int>::empty() =~= seq![1int]);
    }
    assert(seq![1int].reverse() =~= seq![1int]);
}

// ---------------------------------------------------------------------------
// The Line type
// ---------------------------------------------------------------------------

/// One row or one column of the grid: the indices of its cells in the grid's
/// flat store, the cached clue list, and the blank padding unit used when the
/// clues are printed (2 for rows, 1 for columns).
#[derive(Debug, Clone)]
pub struct Line {
    pub cells: Vec<usize>,
    pub indications: Vec<i32>,
    pub space_equivalent: u16,
}

impl Line {
    /// The cached clue list as a mathematical sequence.
    pub open spec fn inds(self) -> Seq<int> {
        self.indications@.map_values(|v: i32| v as int)
    }

    /// Bounds under which clue widths can be computed without overflow.
    pub open spec fn bounded(self) -> bool {
        &&& self.space_equivalent <= 2
        &&& self.indications@.len() <= 0xFFFF
        &&& forall|k: int|
            0 <= k < self.indications@.len() ==> 1 <= #[trigger] self.indications@[k] <= 0xFFFF
    }

    /// A line of `size` cell slots (each initially index 0, to be pointed at
    /// the real cells by the grid builder) with no indications yet.
    pub fn new(size: usize, space_equivalent: u16) -> (l: Line)
        ensures
            l.cells@.len() == size,
            forall|k: int| 0 <= k < size ==> #[trigger] l.cells@[k] == 0,
            l.indications@.len() == 0,
            l.space_equivalent == space_equivalent,
    {
        let mut cells: Vec<usize> = Vec::new();
        let mut k: usize = 0;
        while k < size
            invariant
                k <= size,
                cells@.len() == k,
                forall|t: int| 0 <= t < k ==> #[trigger] cells@[t] == 0,
            decreases size - k,
        {
            cells.push(0);
            k += 1;
        }
        Line { cells, indications: Vec::new(), space_equivalent }
    }

    /// Recompute the cached clue list from the hidden activity bits of this
    /// line's cells, read from the grid's flat store. Called exactly once per
    /// line, at grid-build time.
    pub fn update_indications(&mut self, store: &Vec<Cell>)
        requires
            old(self).cells@.len() <= 0xFFFF,
            forall|k: int|
                0 <= k < old(self).cells@.len() ==> (#[trigger] old(self).cells@[k])
                    < store@.len(),
        ensures
            final(self).cells == old(self).cells,
            final(self).space_equivalent == old(self).space_equivalent,
            final(self).inds() == indications_of(line_actives(old(self).cells@, store@)),
            final(self).indications@.len() <= old(self).cells@.len(),
            forall|k: int|
                0 <= k < final(self).indications@.len()
                    ==> 1 <= #[trigger] final(self).indications@[k] <= old(self).cells@.len(),
    {
        let ghost s: Seq<bool> = line_actives(old(self).cells@, store@);
        let n = self.cells.len();
        let mut runs: Vec<i32> = Vec::new();
        let mut cur: i32 = 0;
        let mut i: usize = 0;
        while i < n
            invariant
                self == old(self),
                n == self.cells@.len(),
                n <= 0xFFFF,
                forall|k: int|
                    0 <= k < self.cells@.len() ==> (#[trigger] self.cells@[k]) < store@.len(),
                s == line_actives(self.cells@, store@),
                i <= n,
                0 <= cur <= i,
                runs@.len() + cur <= i,
                forall|t: int| 0 <= t < runs@.len() ==> 1 <= #[trigger] runs@[t] <= n,
                runs_from(s, 0, 0) == runs@.map_values(|v: i32| v as int) + runs_from(
                    s,
                    i as int,
                    cur as int,
                ),
            decreases n - i,
        {
            let idx = self.cells[i];
            let active = store[idx].active;
            proof {
                assert(s[i as int] == active);
            }
            if active {
                proof {
                    assert(runs_from(s, i as int, cur as int) == runs_from(
                        s,
                        i as int + 1,
                        cur as int + 1,
                    ));
                }
                cur = cur + 1;
            } else {
                if cur != 0 {
                    proof {
                        assert(runs_from(s, i as int, cur as int) == seq![cur as int]
                            + runs_from(s, i as int + 1, 0));
                        assert(runs@.push(cur).map_values(|v: i32| v as int) =~= runs@.map_values(
                            |v: i32| v as int,
                        ).push(cur as int));
                        assert(runs@.map_values(|v: i32| v as int).push(cur as int) + runs_from(
                            s,
                            i as int + 1,
                            0,
                        ) =~= runs@.map_values(|v: i32| v as int) + (seq![cur as int] + runs_from(
                            s,
                            i as int + 1,
                            0,
                        )));
                    }
                    runs.push(cur);
                }
                cur = 0;
            }
            i += 1;
        }
        if cur != 0 {
            proof {
                assert(runs_from(s, n as int, cur as int) =~= seq![cur as int]);
                assert(runs@.push(cur).map_values(|v: i32| v as int) =~= runs@.map_values(
                    |v: i32| v as int,
                ).push(cur as int));
                assert(runs@.map_values(|v: i32| v as int) + seq![cur as int] =~= runs@.map_values(
                    |v: i32| v as int,
                ).push(cur as int));
            }
            runs.push(cur);
        } else {
            proof {
                assert(runs_from(s, n as int, 0) =~= Seq::<int>::empty());
                assert(runs@.map_values(|v: i32| v as int) + Seq::<int>::empty()
                    =~= runs@.map_values(|v: i32| v as int));
            }
        }
        let m = runs.len();
        let mut indications: Vec<i32> = Vec::new();
        let mut j: usize = 0;
        while j < m
            invariant
                m == runs@.len(),
                j <= m,
                indications@.len() == j,
                forall|t: int| 0 <= t < j ==> #[trigger] indications@[t] == runs@[m - 1 - t],
            decreases m - j,
        {
            let v = runs[m - 1 - j];
            indications.push(v);
            j += 1;
        }
        proof {
            assert(indications@.map_values(|v: i32| v as int) =~= runs@.map_values(
                |v: i32| v as int,
            ).reverse());
        }
        self.indications = indications;
    }

    /// The printable clue string: `space_equivalent` blanks, then per
    /// indication its digits in reverse character order and another
    /// `space_equivalent` blanks. The reversed-digit convention lets the
    /// renderer lay the string out character by character outward from the
    /// grid edge.
    pub fn get_indications_as_string(&self) -> (r: String)
        requires
            forall|k: int|
                0 <= k < self.indications@.len() ==> 1 <= #[trigger] self.indications@[k],
        ensures
            r@ == clue_text(self.inds(), self.space_equivalent as int),
    {
        let ghost unit: int = self.space_equivalent as int;
        let mut r = String::new();
        append_spaces(&mut r, self.space_equivalent);
        proof {
            assert(Seq::<char>::empty() + spaces(unit) =~= spaces(unit));
            assert(self.inds().take(0) =~= Seq::<int>::empty());
        }
        let len = self.indications.len();
        let mut k: usize = 0;
        while k < len
            invariant
                len == self.indications@.len(),
                k <= len,
                forall|t: int|
                    0 <= t < self.indications@.len() ==> 1 <= #[trigger] self.indications@[t],
                unit == self.space_equivalent as int,
                r@ == clue_text(self.inds().take(k as int), unit),
            decreases len - k,
        {
            let ghost r0: Seq<char> = r@;
            let v = self.indications[k];
            append_rev_digits(&mut r, v);
            append_spaces(&mut r, self.space_equivalent);
            proof {
                let pre = self.inds().take(k as int);
                let now = self.inds().take(k as int + 1);
                assert(now.drop_last() =~= pre);
                assert(now.last() == v as int);
                assert(r@ =~= clue_text(pre, unit) + digits_of(v as int).reverse() + spaces(unit));
                assert(clue_text(now, unit) == clue_text(pre, unit) + digits_of(
                    now.last(),
                ).reverse() + spaces(unit));
            }
            k += 1;
        }
        proof {
            assert(self.inds().take(len as int) =~= self.inds());
        }
        r
    }
}

// ---------------------------------------------------------------------------
// Executable helpers for clue text and clue widths
// ---------------------------------------------------------------------------

fn append_spaces(s: &mut String, n: u16)
    ensures
        final(s)@ == old(s)@ + spaces(n as int),
{
    proof {
        assert(old(s)@ + spaces(0) =~= old(s)@);
    }
    let mut k: u16 = 0;
    while k < n
        invariant
            k <= n,
            s@ == old(s)@ + spaces(k as int),
        decreases n - k,
    {
        s.append(" ");
        proof {
            reveal_strlit(" ");
            assert(spaces(k as int + 1) == spaces(k as int).push(' '));
            assert(old(s)@ + spaces(k as int) + " "@ =~= old(s)@ + spaces(k as int + 1));
        }
        k += 1;
    }
}

fn append_digit(s: &mut String, d: i32)
    requires
        0 <= d < 10,
    ensures
        final(s)@ == old(s)@.push(digit_char(d as int)),
{
    let t: &str = if d == 0 {
        "0"
    } else if d == 1 {
        "1"
    } else if d == 2 {
        "2"
    } else if d == 3 {
        "3"
    } else if d == 4 {
        "4"
    } else if d == 5 {
        "5"
    } else if d == 6 {
        "6"
    } else if d == 7 {
        "7"
    } else if d == 8 {
        "8"
    } else {
        "9"
    };
    proof {
        reveal_strlit("0");
        reveal_strlit("1");
        reveal_strlit("2");
        reveal_strlit("3");
        reveal_strlit("4");
        reveal_strlit("5");
        reveal_strlit("6");
        reveal_strlit("7");
        reveal_strlit("8");
        reveal_strlit("9");
        assert(t@ =~= seq![digit_char(d as int)]);
    }
    s.append(t);
    proof {
        assert(old(s)@ + seq![digit_char(d as int)] =~= old(s)@.push(digit_char(d as int)));
    }
}

/// Append the decimal digits of `n` in reverse order (least significant
/// first), which is how clue numbers are laid out on screen.
fn append_rev_digits(s: &mut String, n: i32)
    requires
        1 <= n,
    ensures
        final(s)@ == old(s)@ + digits_of(n as int).reverse(),
{
    let ghost mut suffix: Seq<char> = Seq::empty();
    proof {
        assert(digits_of(n as int) + Seq::<char>::empty() =~= digits_of(n as int));
        assert(Seq::<char>::empty().reverse() =~= Seq::<char>::empty());
        assert(old(s)@ + Seq::<char>::empty() =~= old(s)@);
    }
    let mut m: i32 = n;
    while m >= 10
        invariant
            1 <= m,
            digits_of(n as int) == digits_of(m as int) + suffix,
            s@ == old(s)@ + suffix.reverse(),
        decreases m,
    {
        let d = m % 10;
        append_digit(s, d);
        proof {
            let ds = seq![digit_char(d as int)];
            assert(digits_of(m as int) == digits_of(m as int / 10).push(digit_char(
                m as int % 10,
            )));
            assert(digits_of(m as int / 10).push(digit_char(m as int % 10)) =~= digits_of(
                m as int / 10,
            ) + ds);
            assert(digits_of(m as int / 10) + ds + suffix =~= digits_of(m as int / 10) + (ds
                + suffix));
            assert((ds + suffix).reverse() =~= suffix.reverse() + ds);
            assert(old(s)@ + suffix.reverse() + ds =~= old(s)@ + (suffix.reverse() + ds));
            suffix = ds + suffix;
        }
        m = m / 10;
    }
    let d = m;
    append_digit(s, d);
    proof {
        let ds = seq![digit_char(d as int)];
        assert(digits_of(m as int) == ds);
        assert((digits_of(m as int) + suffix).reverse() =~= suffix.reverse() + ds);
        assert(old(s)@ + suffix.reverse() + ds =~= old(s)@ + (suffix.reverse() + ds));
    }
}

/// The number of decimal digits of `n`.
fn decimal_len(n: i32) -> (r: usize)
    requires
        1 <= n,
    ensures
        r == digits_of(n as int).len(),
        1 <= r <= 10,
{
    proof {
        lemma_digits_len_bound(n as int);
    }
    let mut m: i32 = n;
    let mut c: usize = 1;
    while m >= 10
        invariant
            1 <= m,
            1 <= c <= 10,
            digits_of(n as int).len() <= 10,
            digits_of(n as int).len() == digits_of(m as int).len() + c - 1,
        decreases m,
    {
        proof {
            lemma_digits_len_bound(m as int);
            lemma_digits_len_bound(m as int / 10);
        }
        m = m / 10;
        c += 1;
    }
    c
}

proof fn lemma_digits_len_bound(n: int)
    requires
        0 <= n,
    ensures
        1 <= digits_of(n).len(),
        n < 10 ==> digits_of(n).len() == 1,
        n < 100 ==> digits_of(n).len() <= 2,
        n < 1000 ==> digits_of(n).len() <= 3,
        n < 10000 ==> digits_of(n).len() <= 4,
        n < 100000 ==> digits_of(n).len() <= 5,
        n < 1000000 ==> digits_of(n).len() <= 6,
        n < 10000000 ==> digits_of(n).len() <= 7,
        n < 100000000 ==> digits_of(n).len() <= 8,
        n < 1000000000 ==> digits_of(n).len() <= 9,
        n < 10000000000 ==> digits_of(n).len() <= 10,
    decreases n,
{
    if n >= 10 {
        lemma_digits_len_bound(n / 10);
    }
}

/// A bounded line's clue width is at most `2 + 7` characters per indication
/// plus the padding; this is what lets the screen margins fit in a terminal
/// coordinate.
pub proof fn lemma_clue_space_bound(inds: Seq<int>, unit: int)
    requires
        0 <= unit <= 2,
        forall|k: int| 0 <= k < inds.len() ==> 1 <= #[trigger] inds[k] <= 0xFFFF,
    ensures
        unit <= clue_space(inds, unit) <= 2 + 7 * inds.len(),
    decreases inds.len(),
{
    if inds.len() > 0 {
        lemma_clue_space_bound(inds.drop_last(), unit);
        lemma_digits_len_bound(inds.last());
    }
}

/// The widest clue string over a set of bounded lines, each with at most
/// `cap` indications, is itself bounded.
pub proof fn lemma_max_clue_space_bound(lines: Seq<Line>, cap: int)
    requires
        0 <= cap,
        forall|k: int| 0 <= k < lines.len() ==> (#[trigger] lines[k]).bounded(),
        forall|k: int| 0 <= k < lines.len() ==> (#[trigger] lines[k]).indications@.len() <= cap,
    ensures
        0 <= max_clue_space(lines) <= 2 + 7 * cap,
    decreases lines.len(),
{
    if lines.len() > 0 {
        lemma_max_clue_space_bound(lines.drop_last(), cap);
        let l = lines.last();
        lemma_clue_space_bound(l.inds(), l.space_equivalent as int);
    }
}

/// The widest clue string over a set of lines: this sizes the screen margin
/// reserved for the row clues (or the column clues).
pub fn get_indications_max_char_space_needed_lines(lines: &Vec<Line>) -> (r: usize)
    requires
        forall|k: int| 0 <= k < lines@.len() ==> (#[trigger] lines@[k]).bounded(),
    ensures
        r == max_clue_space(lines@),
{
    let mut best: usize = 0;
    proof {
        assert(lines@.take(0) =~= Seq::<Line>::empty());
    }
    let n = lines.len();
    let mut k: usize = 0;
    while k < n
        invariant
            n == lines@.len(),
            k <= n,
            forall|t: int| 0 <= t < lines@.len() ==> (#[trigger] lines@[t]).bounded(),
            best == max_clue_space(lines@.take(k as int)),
            best <= 0x80_0000,
        decreases n - k,
    {
        let line = &lines[k];
        let w = line_char_space(line);
        if w > best {
            best = w;
        }
        proof {
            assert(lines@.take(k as int + 1).drop_last() =~= lines@.take(k as int));
            assert(lines@.take(k as int + 1).last() == lines@[k as int]);
        }
        k += 1;
    }
    proof {
        assert(lines@.take(n as int) =~= lines@);
    }
    best
}

/// The width of one line's clue string, computed from its digit counts.
fn line_char_space(line: &Line) -> (r: usize)
    requires
        line.bounded(),
    ensures
        r == clue_space(line.inds(), line.space_equivalent as int),
        r <= 0x80_0000,
{
    let ghost unit: int = line.space_equivalent as int;
    let mut acc: usize = line.space_equivalent as usize;
    proof {
        assert(line.inds().take(0) =~= Seq::<int>::empty());
    }
    let len = line.indications.len();
    let mut k: usize = 0;
    while k < len
        invariant
            line.bounded(),
            len == line.indications@.len(),
            k <= len,
            unit == line.space_equivalent as int,
            acc == clue_space(line.inds().take(k as int), unit),
            acc <= 2 + 7 * k,
        decreases len - k,
    {
        let v = line.indications[k];
        let d = decimal_len(v);
        proof {
            lemma_digits_len_bound(v as int);
            assert(line.inds().take(k as int + 1).drop_last() =~= line.inds().take(k as int));
            assert(line.inds().take(k as int + 1).last() == v as int);
        }
        acc = acc + line.space_equivalent as usize + d;
        k += 1;
    }
    proof {
        assert(line.inds().take(len as int) =~= line.inds());
    }
    acc
}

} // verus!
