//! Rendering of the format model to judge-style text.

use crate::format::{IOElement, IOFormat, LineElement, Scalar};
use crate::text::{
    decimal, decimal_string, join, join_strings, push_char, push_text, signed_decimal, signed_decimal_string, views,
};
use vstd::prelude::*;
use vstd::string::StringExecFns;

verus! {

/// The separator between fields of a line.
pub open spec fn space() -> Seq<char> {
    seq![' ']
}

/// The separator between lines.
pub open spec fn newline() -> Seq<char> {
    seq!['\n']
}

/// The text of one value.
pub open spec fn scalar_text(s: Scalar) -> Seq<char> {
    match s {
        Scalar::UInt(u) => decimal(u as nat),
        Scalar::Int(i) => signed_decimal(i as int),
        Scalar::Float(t) => t@,
        Scalar::String(t) => t@,
        Scalar::Char(c) => seq![c],
        Scalar::Bool(b) => if b { seq!['t', 'r', 'u', 'e'] } else { seq!['f', 'a', 'l', 's', 'e'] },
    }
}

/// The texts of a run of values.
pub open spec fn scalar_texts(v: Seq<Scalar>) -> Seq<Seq<char>> {
    v.map_values(|s: Scalar| scalar_text(s))
}

/// The number of leading items that a bound keeps.
pub open spec fn kept(len: nat, bound: nat) -> nat {
    if bound < len { bound } else { len }
}

/// The text of one field of a line.
pub open spec fn line_element_text(e: LineElement) -> Seq<char> {
    match e {
        LineElement::Scalar(s) => scalar_text(s),
        LineElement::BoundedVec(v, n) => join(scalar_texts(v@.take(kept(v@.len(), n as nat) as int)), space()),
        LineElement::UnboundedVec(v) => join(scalar_texts(v@), space()),
    }
}

/// Row `i` of parallel columns: the `i`-th value of each column, space-joined.
pub open spec fn row_text(cols: Seq<Vec<Scalar>>, i: int) -> Seq<char> {
    join(cols.map_values(|c: Vec<Scalar>| scalar_text(c@[i])), space())
}

/// The first `n` rows of parallel columns, newline-joined.
pub open spec fn rows_text(cols: Seq<Vec<Scalar>>, n: nat) -> Seq<char> {
    join(Seq::new(n, |i: int| row_text(cols, i)), newline())
}

/// What stands between two neighbouring cells of a grid row.
pub open spec fn grid_sep(a: Scalar, b: Scalar) -> Seq<char> {
    if a is Char && b is Char { Seq::empty() } else { space() }
}

/// A grid row: cells space-joined, but two neighbouring characters touch.
pub open spec fn grid_row_text(cells: Seq<Scalar>) -> Seq<char>
    decreases cells.len(),
{
    if cells.len() == 0 {
        Seq::empty()
    } else if cells.len() == 1 {
        scalar_text(cells[0])
    } else {
        grid_row_text(cells.drop_last()) + grid_sep(cells[cells.len() - 2], cells.last())
            + scalar_text(cells.last())
    }
}

/// The first `h` rows of a grid, each cut to `w` cells, newline-joined.
pub open spec fn grid_text(g: Seq<Vec<Scalar>>, h: nat, w: nat) -> Seq<char> {
    join(Seq::new(h, |i: int| grid_row_text(g[i]@.take(w as int))), newline())
}

/// A block that renders to no text counts as absent.
pub open spec fn present_block(t: Seq<char>) -> Option<Seq<char>> {
    if t.len() == 0 { None } else { Some(t) }
}

/// The number of rows of an unbounded row block: the first column's length,
/// or none without columns.
pub open spec fn first_column_len(cols: Seq<Vec<Scalar>>) -> nat {
    if cols.len() > 0 { cols[0]@.len() } else { 0 }
}

/// Whether every value that an element reads is there.
pub open spec fn element_well_formed(e: IOElement) -> bool {
    match e {
        IOElement::LinesBounded(cols, n) => forall|k: int| 0 <= k < cols@.len() ==> #[trigger] cols@[k]@.len() >= n,
        IOElement::LinesUnbounded(cols) => forall|k: int|
            0 <= k < cols@.len() ==> #[trigger] cols@[k]@.len() >= first_column_len(cols@),
        IOElement::Grid(g, h, w) => g@.len() >= h && forall|i: int| 0 <= i < h ==> #[trigger] g@[i]@.len() >= w,
        _ => true,
    }
}

/// The text of one element; `None` where a row block renders to nothing.
pub open spec fn element_text(e: IOElement) -> Option<Seq<char>> {
    match e {
        IOElement::Line(es) => Some(join(es@.map_values(|x: LineElement| line_element_text(x)), space())),
        IOElement::RawLine(s) => Some(s@),
        IOElement::EmptyLine => Some(Seq::empty()),
        IOElement::LinesBounded(cols, n) => present_block(rows_text(cols@, n as nat)),
        IOElement::LinesUnbounded(cols) => present_block(rows_text(cols@, first_column_len(cols@))),
        IOElement::RawLinesBounded(ls, n) => Some(join(views(ls@).take(kept(ls@.len(), n as nat) as int), newline())),
        IOElement::RawLinesUnbounded(ls) => Some(join(views(ls@), newline())),
        IOElement::Grid(g, h, w) => Some(grid_text(g@, h as nat, w as nat)),
    }
}

/// The texts of the elements that render to something, in order.
pub open spec fn present_texts(es: Seq<IOElement>) -> Seq<Seq<char>>
    decreases es.len(),
{
    if es.len() == 0 {
        Seq::empty()
    } else {
        match element_text(es.last()) {
            Some(t) => present_texts(es.drop_last()).push(t),
            None => present_texts(es.drop_last()),
        }
    }
}

/// The text of a whole test case; `None` where an element misses values it reads.
pub open spec fn format_text(es: Seq<IOElement>) -> Option<Seq<char>> {
    if forall|k: int| 0 <= k < es.len() ==> element_well_formed(#[trigger] es[k]) {
        Some(join(present_texts(es), newline()))
    } else {
        None
    }
}

/// The view of an optional string.
pub open spec fn opt_text(r: Option<String>) -> Option<Seq<char>> {
    match r {
        Some(s) => Some(s@),
        None => None,
    }
}

/// Something that renders to text.
pub trait Generator {
    /// Whether `generate` may be called.
    spec fn renderable(&self) -> bool;

    /// What `generate` returns.
    spec fn rendered(&self) -> Option<Seq<char>>;

    fn generate(&self) -> (r: Option<String>)
        requires
            self.renderable(),
        ensures
            opt_text(r) == self.rendered(),
    ;
}

impl Generator for Scalar {
    open spec fn renderable(&self) -> bool {
        true
    }

    open spec fn rendered(&self) -> Option<Seq<char>> {
        Some(scalar_text(*self))
    }

    fn generate(&self) -> (r: Option<String>) {
        Some(render_scalar(self))
    }
}

fn render_scalar(s: &Scalar) -> (r: String)
    ensures
        r@ == scalar_text(*s),
{
    match s {
        Scalar::UInt(u) => decimal_string(*u),
        Scalar::Int(i) => signed_decimal_string(*i),
        Scalar::Float(t) => t.clone(),
        Scalar::String(t) => t.clone(),
        Scalar::Char(c) => {
            let mut out = String::new();
            push_char(&mut out, *c);
            assert(out@ =~= seq![*c]);
            out
        },
        Scalar::Bool(b) => {
            if *b {
                let out = String::from_str("true");
                proof { reveal_strlit("true"); }
                assert(out@ =~= seq!['t', 'r', 'u', 'e']);
                out
            } else {
                let out = String::from_str("false");
                proof { reveal_strlit("false"); }
                assert(out@ =~= seq!['f', 'a', 'l', 's', 'e']);
                out
            }
        },
    }
}

fn space_str() -> (r: &'static str)
    ensures
        r@ == space(),
{
    proof { reveal_strlit(" "); }
    let r = " ";
    assert(r@ =~= space());
    r
}

fn newline_str() -> (r: &'static str)
    ensures
        r@ == newline(),
{
    proof { reveal_strlit("\n"); }
    let r = "\n";
    assert(r@ =~= newline());
    r
}

/// The texts of the first `k` values.
fn render_scalars(v: &Vec<Scalar>, k: usize) -> (r: Vec<String>)
    requires
        k <= v@.len(),
    ensures
        views(r@) == scalar_texts(v@.take(k as int)),
{
    let mut out: Vec<String> = Vec::new();
    let mut i: usize = 0;
    while i < k
        invariant
            i <= k <= v@.len(),
            views(out@) =~= scalar_texts(v@.take(i as int)),
        decreases k - i,
    {
        let t = render_scalar(&v[i]);
        push_text(&mut out, t);
        assert(v@.take(i as int + 1) =~= v@.take(i as int).push(v@[i as int]));
        assert(scalar_texts(v@.take(i as int + 1)) =~= scalar_texts(v@.take(i as int)).push(t@));
        i = i + 1;
    }
    out
}

impl Generator for LineElement {
    open spec fn renderable(&self) -> bool {
        true
    }

    open spec fn rendered(&self) -> Option<Seq<char>> {
        Some(line_element_text(*self))
    }

    fn generate(&self) -> (r: Option<String>) {
        Some(render_line_element(self))
    }
}

fn render_line_element(e: &LineElement) -> (r: String)
    ensures
        r@ == line_element_text(*e),
{
    match e {
        LineElement::Scalar(s) => render_scalar(s),
        LineElement::BoundedVec(v, n) => {
            let k: usize = if *n < v.len() { *n } else { v.len() };
            let texts = render_scalars(v, k);
            join_strings(&texts, space_str())
        },
        LineElement::UnboundedVec(v) => {
            let texts = render_scalars(v, v.len());
            assert(v@.take(v@.len() as int) =~= v@);
            join_strings(&texts, space_str())
        },
    }
}

fn render_line(es: &Vec<LineElement>) -> (r: String)
    ensures
        r@ == join(es@.map_values(|x: LineElement| line_element_text(x)), space()),
{
    let mut texts: Vec<String> = Vec::new();
    let mut i: usize = 0;
    while i < es.len()
        invariant
            i <= es@.len(),
            views(texts@) =~= es@.take(i as int).map_values(|x: LineElement| line_element_text(x)),
        decreases es@.len() - i,
    {
        let t = render_line_element(&es[i]);
        push_text(&mut texts, t);
        assert(es@.take(i as int + 1) =~= es@.take(i as int).push(es@[i as int]));
        i = i + 1;
    }
    assert(es@.take(es@.len() as int) =~= es@);
    join_strings(&texts, space_str())
}

/// Row `i` of parallel columns.
fn render_row(cols: &Vec<Vec<Scalar>>, i: usize) -> (r: String)
    requires
        forall|k: int| 0 <= k < cols@.len() ==> #[trigger] cols@[k]@.len() > i,
    ensures
        r@ == row_text(cols@, i as int),
{
    let mut cells: Vec<String> = Vec::new();
    let mut k: usize = 0;
    while k < cols.len()
        invariant
            k <= cols@.len(),
            forall|k: int| 0 <= k < cols@.len() ==> #[trigger] cols@[k]@.len() > i,
            views(cells@) =~= cols@.take(k as int).map_values(|c: Vec<Scalar>| scalar_text(c@[i as int])),
        decreases cols@.len() - k,
    {
        let t = render_scalar(&cols[k][i]);
        push_text(&mut cells, t);
        assert(cols@.take(k as int + 1) =~= cols@.take(k as int).push(cols@[k as int]));
        k = k + 1;
    }
    assert(cols@.take(cols@.len() as int) =~= cols@);
    join_strings(&cells, space_str())
}

/// The first `n` rows of parallel columns.
fn render_rows(cols: &Vec<Vec<Scalar>>, n: usize) -> (r: String)
    requires
        forall|k: int| 0 <= k < cols@.len() ==> #[trigger] cols@[k]@.len() >= n,
    ensures
        r@ == rows_text(cols@, n as nat),
{
    let mut rows: Vec<String> = Vec::new();
    let mut i: usize = 0;
    while i < n
        invariant
            i <= n,
            forall|k: int| 0 <= k < cols@.len() ==> #[trigger] cols@[k]@.len() >= n,
            views(rows@) =~= Seq::new(i as nat, |j: int| row_text(cols@, j)),
        decreases n - i,
    {
        let t = render_row(cols, i);
        push_text(&mut rows, t);
        i = i + 1;
    }
    join_strings(&rows, newline_str())
}

/// The first `w` cells of a grid row.
fn render_grid_row(cells: &Vec<Scalar>, w: usize) -> (r: String)
    requires
        w <= cells@.len(),
    ensures
        r@ == grid_row_text(cells@.take(w as int)),
{
    let mut out = String::new();
    let mut j: usize = 0;
    while j < w
        invariant
            j <= w <= cells@.len(),
            out@ == grid_row_text(cells@.take(j as int)),
        decreases w - j,
    {
        let ghost next = cells@.take(j as int + 1);
        assert(next.drop_last() =~= cells@.take(j as int));
        if j > 0 {
            let both_chars = match (&cells[j - 1], &cells[j]) {
                (Scalar::Char(_), Scalar::Char(_)) => true,
                _ => false,
            };
            if !both_chars {
                out.append(space_str());
            }
        }
        let t = render_scalar(&cells[j]);
        out.append(t.as_str());
        j = j + 1;
        assert(out@ =~= grid_row_text(next));
    }
    out
}

fn render_grid(g: &Vec<Vec<Scalar>>, h: usize, w: usize) -> (r: String)
    requires
        g@.len() >= h,
        forall|i: int| 0 <= i < h ==> #[trigger] g@[i]@.len() >= w,
    ensures
        r@ == grid_text(g@, h as nat, w as nat),
{
    let mut rows: Vec<String> = Vec::new();
    let mut i: usize = 0;
    while i < h
        invariant
            i <= h <= g@.len(),
            forall|i: int| 0 <= i < h ==> #[trigger] g@[i]@.len() >= w,
            views(rows@) =~= Seq::new(i as nat, |k: int| grid_row_text(g@[k]@.take(w as int))),
        decreases h - i,
    {
        let t = render_grid_row(&g[i], w);
        push_text(&mut rows, t);
        i = i + 1;
    }
    join_strings(&rows, newline_str())
}

fn nonempty(t: String) -> (r: Option<String>)
    ensures
        opt_text(r) == present_block(t@),
{
    if t.as_str().is_empty() {
        None
    } else {
        Some(t)
    }
}

impl Generator for IOElement {
    open spec fn renderable(&self) -> bool {
        element_well_formed(*self)
    }

    open spec fn rendered(&self) -> Option<Seq<char>> {
        element_text(*self)
    }

    fn generate(&self) -> (r: Option<String>) {
        match self {
            IOElement::Line(es) => Some(render_line(es)),
            IOElement::RawLine(s) => Some(s.clone()),
            IOElement::EmptyLine => {
                let out = String::new();
                assert(out@ =~= Seq::<char>::empty());
                Some(out)
            },
            IOElement::LinesBounded(cols, n) => nonempty(render_rows(cols, *n)),
            IOElement::LinesUnbounded(cols) => {
                let n: usize = if cols.len() > 0 { cols[0].len() } else { 0 };
                nonempty(render_rows(cols, n))
            },
            IOElement::RawLinesBounded(ls, n) => {
                let k: usize = if *n < ls.len() { *n } else { ls.len() };
                let mut kept_lines: Vec<String> = Vec::new();
                let mut i: usize = 0;
                while i < k
                    invariant
                        i <= k <= ls@.len(),
                        views(kept_lines@) =~= views(ls@).take(i as int),
                    decreases k - i,
                {
                    push_text(&mut kept_lines, ls[i].clone());
                    i = i + 1;
                }
                Some(join_strings(&kept_lines, newline_str()))
            },
            IOElement::RawLinesUnbounded(ls) => Some(join_strings(ls, newline_str())),
            IOElement::Grid(g, h, w) => Some(render_grid(g, *h, *w)),
        }
    }
}

fn columns_reach(cols: &Vec<Vec<Scalar>>, n: usize) -> (r: bool)
    ensures
        r == forall|k: int| 0 <= k < cols@.len() ==> #[trigger] cols@[k]@.len() >= n,
{
    let mut k: usize = 0;
    while k < cols.len()
        invariant
            k <= cols@.len(),
            forall|j: int| 0 <= j < k ==> #[trigger] cols@[j]@.len() >= n,
        decreases cols@.len() - k,
    {
        if cols[k].len() < n {
            return false;
        }
        k = k + 1;
    }
    true
}

fn grid_reaches(g: &Vec<Vec<Scalar>>, h: usize, w: usize) -> (r: bool)
    ensures
        r == (g@.len() >= h && forall|i: int| 0 <= i < h ==> #[trigger] g@[i]@.len() >= w),
{
    if g.len() < h {
        return false;
    }
    let mut i: usize = 0;
    while i < h
        invariant
            i <= h <= g@.len(),
            forall|j: int| 0 <= j < i ==> #[trigger] g@[j]@.len() >= w,
        decreases h - i,
    {
        if g[i].len() < w {
            return false;
        }
        i = i + 1;
    }
    true
}

impl IOElement {
    /// Whether every value that the element reads is there.
    pub fn is_well_formed(&self) -> (r: bool)
        ensures
            r == element_well_formed(*self),
    {
        match self {
            IOElement::LinesBounded(cols, n) => columns_reach(cols, *n),
            IOElement::LinesUnbounded(cols) => {
                let n: usize = if cols.len() > 0 { cols[0].len() } else { 0 };
                columns_reach(cols, n)
            },
            IOElement::Grid(g, h, w) => grid_reaches(g, *h, *w),
            _ => true,
        }
    }
}

impl Generator for Vec<IOElement> {
    open spec fn renderable(&self) -> bool {
        true
    }

    open spec fn rendered(&self) -> Option<Seq<char>> {
        format_text(self@)
    }

    fn generate(&self) -> (r: Option<String>) {
        let mut i: usize = 0;
        while i < self.len()
            invariant
                i <= self@.len(),
                forall|k: int| 0 <= k < i ==> element_well_formed(#[trigger] self@[k]),
            decreases self@.len() - i,
        {
            if !self[i].is_well_formed() {
                return None;
            }
            i = i + 1;
        }
        let mut texts: Vec<String> = Vec::new();
        let mut i: usize = 0;
        while i < self.len()
            invariant
                i <= self@.len(),
                forall|k: int| 0 <= k < self@.len() ==> element_well_formed(#[trigger] self@[k]),
                views(texts@) == present_texts(self@.take(i as int)),
            decreases self@.len() - i,
        {
            assert(self@.take(i as int + 1).drop_last() =~= self@.take(i as int));
            match self[i].generate() {
                Some(t) => push_text(&mut texts, t),
                None => {},
            }
            i = i + 1;
        }
        assert(self@.take(self@.len() as int) =~= self@);
        Some(join_strings(&texts, newline_str()))
    }
}

/// Rendering depends on the value alone: equal formats render to the same
/// text, every time, and a format whose elements are all well formed
/// always renders.
pub proof fn render_is_deterministic(a: IOFormat, b: IOFormat)
    requires
        a@ == b@,
    ensures
        a.rendered() == b.rendered(),
        (forall|k: int| 0 <= k < a@.len() ==> element_well_formed(#[trigger] a@[k])) ==> a.rendered() is Some,
{
}

proof fn lemma_present_concat(a: Seq<IOElement>, b: Seq<IOElement>)
    ensures
        present_texts(a + b) == present_texts(a) + present_texts(b),
    decreases b.len(),
{
    if b.len() == 0 {
        assert(a + b =~= a);
        assert(present_texts(a) + present_texts(b) =~= present_texts(a));
    } else {
        assert((a + b).drop_last() =~= a + b.drop_last());
        lemma_present_concat(a, b.drop_last());
        match element_text(b.last()) {
            Some(t) => {
                assert(present_texts(a) + present_texts(b) =~= (present_texts(a) + present_texts(
                    b.drop_last(),
                )).push(t));
            },
            None => {},
        }
    }
}

/// An element that renders to nothing (an empty row block) leaves no line
/// behind: the text is the same as without it.
pub proof fn absent_block_leaves_no_line(es: Seq<IOElement>, k: int)
    requires
        0 <= k < es.len(),
        element_well_formed(es[k]),
        element_text(es[k]) is None,
    ensures
        format_text(es) == format_text(es.remove(k)),
{
    let head = es.take(k);
    let tail = es.skip(k + 1);
    assert(es =~= head + seq![es[k]] + tail);
    assert(es.remove(k) =~= head + tail);
    assert(seq![es[k]].drop_last() =~= Seq::<IOElement>::empty());
    lemma_present_concat(head, seq![es[k]]);
    lemma_present_concat(head + seq![es[k]], tail);
    lemma_present_concat(head, tail);
    assert(seq![es[k]].last() == es[k]);
    assert(present_texts(Seq::<IOElement>::empty()) =~= Seq::<Seq<char>>::empty());
    assert(present_texts(seq![es[k]]) =~= Seq::<Seq<char>>::empty());
    assert(present_texts(head) + present_texts(seq![es[k]]) =~= present_texts(head));
    let r = es.remove(k);
    assert((forall|j: int| 0 <= j < es.len() ==> element_well_formed(#[trigger] es[j])) <==> (forall|j: int|
        0 <= j < r.len() ==> element_well_formed(#[trigger] r[j]))) by {
        if forall|j: int| 0 <= j < r.len() ==> element_well_formed(#[trigger] r[j]) {
            assert forall|j: int| 0 <= j < es.len() implies element_well_formed(#[trigger] es[j]) by {
                if j < k {
                    assert(es[j] == r[j]);
                } else if j > k {
                    assert(es[j] == r[j - 1]);
                }
            }
        }
        if forall|j: int| 0 <= j < es.len() ==> element_well_formed(#[trigger] es[j]) {
            assert forall|j: int| 0 <= j < r.len() implies element_well_formed(#[trigger] r[j]) by {
                if j < k {
                    assert(es[j] == r[j]);
                } else {
                    assert(es[j + 1] == r[j]);
                }
            }
        }
    }
}

/// An explicit empty line always stays: it adds one empty text exactly
/// where it stands.
pub proof fn empty_line_is_kept(es: Seq<IOElement>, k: int)
    requires
        0 <= k <= es.len(),
    ensures
        present_texts(es.insert(k, IOElement::EmptyLine)) == present_texts(es.take(k)) + seq![Seq::<char>::empty()]
            + present_texts(es.skip(k)),
{
    let head = es.take(k);
    let tail = es.skip(k);
    let line = seq![IOElement::EmptyLine];
    assert(es.insert(k, IOElement::EmptyLine) =~= head + line + tail);
    assert(line.drop_last() =~= Seq::<IOElement>::empty());
    assert(line.last() == IOElement::EmptyLine);
    assert(present_texts(Seq::<IOElement>::empty()) =~= Seq::<Seq<char>>::empty());
    assert(present_texts(line) =~= seq![Seq::<char>::empty()]);
    lemma_present_concat(head, line);
    lemma_present_concat(head + line, tail);
}

} // verus!
