use vstd::prelude::*;

use crate::coordinates::Coordinates;
use crate::fail::{WError, WResult};

verus! {

/// The sum of a sequence of widths or ratios.
pub open spec fn spec_usum(s: Seq<usize>) -> int
    decreases s.len(),
{
    if s.len() == 0 {
        0
    } else {
        s[0] + spec_usum(s.drop_first())
    }
}

pub proof fn lemma_usum_nonneg(s: Seq<usize>)
    ensures
        spec_usum(s) >= 0,
    decreases s.len(),
{
    if s.len() > 0 {
        lemma_usum_nonneg(s.drop_first());
    }
}

/// Every element is at most the sum.
pub proof fn lemma_usum_elem_le(s: Seq<usize>, i: int)
    requires
        0 <= i < s.len(),
    ensures
        s[i] <= spec_usum(s),
    decreases s.len(),
{
    lemma_usum_nonneg(s.drop_first());
    if i > 0 {
        lemma_usum_elem_le(s.drop_first(), i - 1);
    }
}

pub proof fn lemma_usum_push(s: Seq<usize>, x: usize)
    ensures
        spec_usum(s.push(x)) == spec_usum(s) + x,
    decreases s.len(),
{
    if s.len() == 0 {
        assert(s.push(x)[0] == x);
        assert(s.push(x).drop_first() =~= Seq::<usize>::empty());
        assert(spec_usum(Seq::<usize>::empty()) == 0);
        assert(spec_usum(s.push(x)) == x + spec_usum(Seq::<usize>::empty()));
    } else {
        assert(s.push(x)[0] == s[0]);
        assert(s.push(x).drop_first() =~= s.drop_first().push(x));
        lemma_usum_push(s.drop_first(), x);
        assert(spec_usum(s.push(x)) == s[0] + spec_usum(s.drop_first().push(x)));
    }
}

/// Decrementing one element decrements the sum.
pub proof fn lemma_usum_update_dec(s: Seq<usize>, i: int)
    requires
        0 <= i < s.len(),
        s[i] >= 1,
    ensures
        spec_usum(s.update(i, (s[i] - 1) as usize)) == spec_usum(s) - 1,
    decreases s.len(),
{
    let t = s.update(i, (s[i] - 1) as usize);
    if i == 0 {
        assert(t.drop_first() =~= s.drop_first());
    } else {
        assert(t.drop_first() =~= s.drop_first().update(i - 1, (s[i] - 1) as usize));
        lemma_usum_update_dec(s.drop_first(), i - 1);
    }
}

/// A positive sum has a positive element.
pub proof fn lemma_usum_pos_elem(s: Seq<usize>) -> (i: int)
    requires
        spec_usum(s) >= 1,
    ensures
        0 <= i < s.len(),
        s[i] >= 1,
    decreases s.len(),
{
    if s[0] >= 1 {
        0
    } else {
        let j = lemma_usum_pos_elem(s.drop_first());
        j + 1
    }
}

/// A prefix sums to no more than the whole.
pub proof fn lemma_usum_take_le(s: Seq<usize>, i: int)
    requires
        0 <= i <= s.len(),
    ensures
        spec_usum(s.take(i)) <= spec_usum(s),
        spec_usum(s.take(i)) >= 0,
    decreases s.len() - i,
{
    lemma_usum_nonneg(s.take(i));
    if i < s.len() {
        assert(s.take(i + 1) =~= s.take(i).push(s[i]));
        lemma_usum_push(s.take(i), s[i]);
        lemma_usum_take_le(s, i + 1);
        assert(s.take(s.len() as int) =~= s);
    } else {
        assert(s.take(i) =~= s);
    }
}

/// A sequence of bounded elements has a bounded sum.
pub proof fn lemma_usum_bounded(s: Seq<usize>, b: int)
    requires
        forall|k: int| 0 <= k < s.len() ==> #[trigger] s[k] <= b,
    ensures
        spec_usum(s) <= s.len() * b,
    decreases s.len(),
{
    if s.len() > 0 {
        assert(forall|k: int|
            0 <= k < s.drop_first().len() ==> #[trigger] s.drop_first()[k] <= b);
        lemma_usum_bounded(s.drop_first(), b);
        assert(s.len() * b == (s.len() - 1) * b + b) by (nonlinear_arith);
    }
}

/// One ratio scaled to the box width, rounded to the nearest cell and
/// widened to the minimum usable width of ten cells.
pub open spec fn spec_scaled_one(r: usize, xsize: u16, sum: int) -> usize
    recommends
        sum >= 1,
{
    let v = (2 * (r as int) * (xsize as int) + sum) / (2 * sum);
    let clamped: int = if v < 10 {
        10
    } else {
        v
    };
    clamped as usize
}

/// The scaled width never exceeds the box width (or the ten-cell
/// minimum).
pub proof fn lemma_scaled_bound(r: usize, xsize: u16, sum: int)
    requires
        1 <= sum,
        r as int <= sum,
    ensures
        10 <= spec_scaled_one(r, xsize, sum),
        spec_scaled_one(r, xsize, sum) <= if 10 > xsize as int {
            10int
        } else {
            xsize as int
        },
{
    let ri = r as int;
    let xi = xsize as int;
    let v = (2 * ri * xi + sum) / (2 * sum);
    assert(2 * ri * xi >= 0) by (nonlinear_arith)
        requires
            ri >= 0 && xi >= 0,
    ;
    vstd::arithmetic::div_mod::lemma_div_pos_is_pos(2 * ri * xi + sum, 2 * sum);
    assert(2 * ri * xi + sum <= 2 * sum * xi + sum) by (nonlinear_arith)
        requires
            ri <= sum && xi >= 0,
    ;
    assert(2 * sum * xi + sum == xi * (2 * sum) + sum) by (nonlinear_arith);
    vstd::arithmetic::div_mod::lemma_fundamental_div_mod_converse(
        2 * sum * xi + sum,
        2 * sum,
        xi,
        sum,
    );
    vstd::arithmetic::div_mod::lemma_div_is_ordered(2 * ri * xi + sum, 2 * sum * xi + sum, 2 * sum);
}

/// The first position of the widest width, the one that gives up a cell
/// when the row must shrink.
pub open spec fn spec_max_at(ws: Seq<usize>) -> int
    decreases ws.len(),
{
    if ws.len() <= 1 {
        0
    } else {
        let rest = spec_max_at(ws.drop_first()) + 1;
        if ws[rest] > ws[0] {
            rest
        } else {
            0
        }
    }
}

/// `spec_max_at` names a maximum, and the earliest one.
pub proof fn lemma_max_at_props(ws: Seq<usize>)
    requires
        ws.len() > 0,
    ensures
        0 <= spec_max_at(ws) < ws.len(),
        forall|k: int| 0 <= k < ws.len() ==> #[trigger] ws[k] <= ws[spec_max_at(ws)],
        forall|k: int| 0 <= k < spec_max_at(ws) ==> #[trigger] ws[k] < ws[spec_max_at(ws)],
    decreases ws.len(),
{
    if ws.len() > 1 {
        let t = ws.drop_first();
        lemma_max_at_props(t);
        assert(forall|k: int| 0 <= k < t.len() ==> #[trigger] t[k] == ws[k + 1]);
        let rt = spec_max_at(t) + 1;
        let m = spec_max_at(ws);
        if ws[rt] > ws[0] {
            assert(m == rt);
            assert forall|k: int| 0 <= k < ws.len() implies #[trigger] ws[k] <= ws[m] by {
                if k >= 1 {
                    assert(t[k - 1] <= t[rt - 1]);
                }
            }
            assert forall|k: int| 0 <= k < m implies #[trigger] ws[k] < ws[m] by {
                if k >= 1 {
                    assert(t[k - 1] < t[rt - 1]);
                }
            }
        } else {
            assert(m == 0);
            assert forall|k: int| 0 <= k < ws.len() implies #[trigger] ws[k] <= ws[m] by {
                if k >= 1 {
                    assert(t[k - 1] <= t[rt - 1]);
                    assert(ws[k] <= ws[rt]);
                }
            }
        }
    }
}

/// Those two properties pin the position.
pub proof fn lemma_max_at_unique(ws: Seq<usize>, m: int)
    requires
        0 <= m < ws.len(),
        forall|k: int| 0 <= k < ws.len() ==> #[trigger] ws[k] <= ws[m],
        forall|k: int| 0 <= k < m ==> #[trigger] ws[k] < ws[m],
    ensures
        spec_max_at(ws) == m,
    decreases ws.len(),
{
    if ws.len() <= 1 {
        assert(m == 0);
    } else {
        let t = ws.drop_first();
        assert(forall|k: int| 0 <= k < t.len() ==> #[trigger] t[k] == ws[k + 1]);
        if m == 0 {
            lemma_max_at_props(t);
            assert(t[spec_max_at(t)] <= ws[0]);
        } else {
            lemma_max_at_unique(t, m - 1);
        }
    }
}

/// The row after the overflow adjustment: while the widths and their
/// gap cells overflow the box, the first widest width gives up one cell.
pub open spec fn spec_shrink(ws: Seq<usize>, xsize: int) -> Seq<usize>
    decreases spec_usum(ws)
        via spec_shrink_decreases
{
    if spec_usum(ws) + ws.len() > xsize + 1 && ws.len() > 0 && ws[spec_max_at(ws)] >= 1 {
        spec_shrink(ws.update(spec_max_at(ws), (ws[spec_max_at(ws)] - 1) as usize), xsize)
    } else {
        ws
    }
}

#[via_fn]
proof fn spec_shrink_decreases(ws: Seq<usize>, xsize: int) {
    if spec_usum(ws) + ws.len() > xsize + 1 && ws.len() > 0 && ws[spec_max_at(ws)] >= 1 {
        lemma_max_at_props(ws);
        lemma_usum_update_dec(ws, spec_max_at(ws));
        lemma_usum_nonneg(ws.update(spec_max_at(ws), (ws[spec_max_at(ws)] - 1) as usize));
    }
}

/// Shrinking keeps the number of widths.
pub proof fn lemma_shrink_len(ws: Seq<usize>, xsize: int)
    ensures
        spec_shrink(ws, xsize).len() == ws.len(),
    decreases spec_usum(ws),
{
    if spec_usum(ws) + ws.len() > xsize + 1 && ws.len() > 0 && ws[spec_max_at(ws)] >= 1 {
        lemma_max_at_props(ws);
        lemma_usum_update_dec(ws, spec_max_at(ws));
        lemma_usum_nonneg(ws.update(spec_max_at(ws), (ws[spec_max_at(ws)] - 1) as usize));
        lemma_shrink_len(ws.update(spec_max_at(ws), (ws[spec_max_at(ws)] - 1) as usize), xsize);
    }
}

/// A horizontal row of widgets sharing the box's width by ratio.
#[derive(Debug)]
pub struct HBox<T> {
    pub widgets: Vec<T>,
    pub ratios: Option<Vec<usize>>,
    pub zoom_active: bool,
    pub active: Option<usize>,
    pub coordinates: Coordinates,
}

impl<T> HBox<T> {
    /// The ratios the layout uses: the configured ones, or an equal share
    /// of one hundred per widget.
    pub open spec fn spec_ratios_used(&self) -> Seq<usize> {
        match self.ratios {
            Some(rs) => rs@,
            None => Seq::new(
                self.widgets@.len(),
                |i: int| (100int / self.widgets@.len() as int) as usize,
            ),
        }
    }

    pub fn new(coordinates: &Coordinates) -> (h: HBox<T>)
        ensures
            h.widgets@.len() == 0,
            h.ratios is None,
            !h.zoom_active,
            h.active is None,
            h.coordinates == *coordinates,
    {
        HBox {
            widgets: Vec::new(),
            ratios: None,
            zoom_active: false,
            active: None,
            coordinates: *coordinates,
        }
    }

    pub fn push_widget(&mut self, widget: T)
        ensures
            final(self).widgets@ == old(self).widgets@.push(widget),
            final(self).ratios == old(self).ratios,
            final(self).zoom_active == old(self).zoom_active,
            final(self).active == old(self).active,
            final(self).coordinates == old(self).coordinates,
    {
        self.widgets.push(widget);
    }

    pub fn pop_widget(&mut self) -> (r: Option<T>)
        ensures
            old(self).widgets@.len() == 0 ==> r is None
                && final(self).widgets@ == old(self).widgets@,
            old(self).widgets@.len() > 0 ==> r == Some(old(self).widgets@.last())
                && final(self).widgets@ == old(self).widgets@.drop_last(),
            final(self).ratios == old(self).ratios,
            final(self).zoom_active == old(self).zoom_active,
            final(self).active == old(self).active,
            final(self).coordinates == old(self).coordinates,
    {
        self.widgets.pop()
    }

    pub fn remove_widget(&mut self, index: usize) -> (r: T)
        requires
            index < old(self).widgets@.len(),
        ensures
            r == old(self).widgets@[index as int],
            final(self).widgets@ == old(self).widgets@.remove(index as int),
            final(self).ratios == old(self).ratios,
            final(self).zoom_active == old(self).zoom_active,
            final(self).active == old(self).active,
            final(self).coordinates == old(self).coordinates,
    {
        self.widgets.remove(index)
    }

    pub fn prepend_widget(&mut self, widget: T)
        requires
            old(self).widgets@.len() < usize::MAX,
        ensures
            final(self).widgets@ == old(self).widgets@.insert(0, widget),
            final(self).ratios == old(self).ratios,
            final(self).zoom_active == old(self).zoom_active,
            final(self).active == old(self).active,
            final(self).coordinates == old(self).coordinates,
    {
        self.widgets.insert(0, widget);
    }

    pub fn insert_widget(&mut self, index: usize, widget: T)
        requires
            index <= old(self).widgets@.len(),
            old(self).widgets@.len() < usize::MAX,
        ensures
            final(self).widgets@ == old(self).widgets@.insert(index as int, widget),
            final(self).ratios == old(self).ratios,
            final(self).zoom_active == old(self).zoom_active,
            final(self).active == old(self).active,
            final(self).coordinates == old(self).coordinates,
    {
        self.widgets.insert(index, widget);
    }

    pub fn replace_widget(&mut self, index: usize, widget: T) -> (r: T)
        requires
            index < old(self).widgets@.len(),
        ensures
            r == old(self).widgets@[index as int],
            final(self).widgets@ == old(self).widgets@.update(index as int, widget),
            final(self).ratios == old(self).ratios,
            final(self).zoom_active == old(self).zoom_active,
            final(self).active == old(self).active,
            final(self).coordinates == old(self).coordinates,
    {
        let mut widget = widget;
        core::mem::swap(&mut self.widgets[index], &mut widget);
        widget
    }

    /// Flip between showing all widgets and only the active one.
    pub fn toggle_zoom(&mut self)
        ensures
            final(self).zoom_active == !old(self).zoom_active,
            final(self).widgets@ == old(self).widgets@,
            final(self).ratios == old(self).ratios,
            final(self).active == old(self).active,
            final(self).coordinates == old(self).coordinates,
    {
        self.zoom_active = !self.zoom_active;
    }

    pub fn set_ratios(&mut self, ratios: Vec<usize>)
        ensures
            final(self).ratios == Some(ratios),
            final(self).widgets@ == old(self).widgets@,
            final(self).active == old(self).active,
            final(self).zoom_active == old(self).zoom_active,
            final(self).coordinates == old(self).coordinates,
    {
        self.ratios = Some(ratios);
    }

    /// An equal share of one hundred for each widget.
    pub fn calculate_equal_ratios(&self) -> (r: WResult<Vec<usize>>)
        ensures
            r is Ok <==> self.widgets@.len() > 0,
            r matches Ok(rs) ==> rs@.len() == self.widgets@.len() && forall|i: int|
                0 <= i < rs@.len() ==> rs@[i] == (100int / self.widgets@.len() as int) as usize,
            r matches Err(e) ==> e == WError::NoWidgetError,
    {
        let len = self.widgets.len();
        if len == 0 {
            return Err(WError::NoWidgetError);
        }
        let share: usize = 100 / len;
        let mut rs: Vec<usize> = Vec::new();
        let mut i: usize = 0;
        while i < len
            invariant
                0 <= i <= len,
                share == (100int / len as int) as usize,
                rs@.len() == i,
                forall|k: int| 0 <= k < i ==> rs@[k] == share,
            decreases len - i,
        {
            rs.push(share);
            i = i + 1;
        }
        Ok(rs)
    }

    pub fn set_active(&mut self, i: usize) -> (r: WResult<()>)
        ensures
            (r is Ok) == (i < old(self).widgets@.len()),
            r is Ok ==> final(self).active == Some(i),
            r is Err ==> final(self).active == old(self).active,
            r matches Err(e) ==> e == WError::NoWidgetError,
            final(self).widgets@ == old(self).widgets@,
            final(self).ratios == old(self).ratios,
            final(self).zoom_active == old(self).zoom_active,
            final(self).coordinates == old(self).coordinates,
    {
        if i >= self.widgets.len() {
            return Err(WError::NoWidgetError);
        }
        self.active = Some(i);
        Ok(())
    }

    pub fn active_widget(&self) -> (r: Option<&T>)
        ensures
            (r is Some) == (self.active matches Some(a) && a < self.widgets@.len()),
            r matches Some(w) ==> self.active matches Some(a) && *w == self.widgets@[a as int],
    {
        match self.active {
            Some(a) if a < self.widgets.len() => Some(&self.widgets[a]),
            _ => None,
        }
    }

    /// The sum of the widths a coordinate row allots.
    pub open spec fn spec_width_sum(cs: Seq<Coordinates>) -> int
        decreases cs.len(),
    {
        if cs.len() == 0 {
            0
        } else {
            cs[0].spec_xsize() + Self::spec_width_sum(cs.drop_first())
        }
    }

    /// Everything the computed row satisfies: one coordinate per ratio,
    /// all on the box's top row; the first widget at the box's left edge
    /// and each next one a single gap cell after its neighbour; and the
    /// widths exactly the scaled ratios after the overflow adjustment
    /// (`spec_shrink`), so the row never overflows the box.
    pub open spec fn spec_layout_ok(self, cs: Seq<Coordinates>) -> bool {
        let rs = self.spec_ratios_used();
        let rsum = spec_usum(rs);
        let n = rs.len() as int;
        let xsize = self.coordinates.spec_xsize() as int;
        let scaled = Seq::new(
            rs.len(),
            |i: int| spec_scaled_one(rs[i], self.coordinates.spec_xsize(), rsum),
        );
        let widths = spec_shrink(scaled, xsize);
        &&& cs.len() == n
        &&& forall|i: int|
            0 <= i < n ==> (#[trigger] cs[i]).spec_ysize() == self.coordinates.spec_ysize()
                && cs[i].spec_ypos() == self.coordinates.spec_ypos()
        &&& (n > 0 ==> cs[0].spec_xpos() == self.coordinates.spec_xpos())
        &&& forall|i: int|
            0 < i < n ==> (#[trigger] cs[i]).spec_xpos() == cs[i - 1].spec_xpos() + cs[i
                - 1].spec_xsize() + 1
        &&& forall|i: int|
            0 <= i < n ==> (#[trigger] cs[i]).spec_xsize() as int == widths[i] as int
        &&& Self::spec_width_sum(cs) + n <= xsize + 1
    }

    /// Law: the layout is a function of the box and the ratios alone —
    /// two rows that both satisfy the layout contract are equal, so
    /// repeated calls return equal rows.
    pub proof fn lemma_layout_deterministic(self, a: Seq<Coordinates>, b: Seq<Coordinates>)
        requires
            self.spec_layout_ok(a),
            self.spec_layout_ok(b),
        ensures
            a == b,
    {
        assert forall|i: int| 0 <= i < a.len() implies a[i] == b[i] by {
            self.lemma_layout_prefix_eq(a, b, i);
        }
        assert(a =~= b);
    }

    /// The layout contract pins each coordinate, left to right.
    proof fn lemma_layout_prefix_eq(self, a: Seq<Coordinates>, b: Seq<Coordinates>, i: int)
        requires
            self.spec_layout_ok(a),
            self.spec_layout_ok(b),
            0 <= i < a.len(),
        ensures
            a[i] == b[i],
        decreases i,
    {
        if i > 0 {
            self.lemma_layout_prefix_eq(a, b, i - 1);
        }
        assert(a[i].spec_xsize() == b[i].spec_xsize());
        assert(a[i].spec_xpos() == b[i].spec_xpos());
        assert(a[i].size.0 == b[i].size.0);
        assert(a[i].position.0 == b[i].position.0);
        assert(a[i] == b[i]);
    }

    /// Share the box's width among the widgets: each ratio is scaled to
    /// the box and rounded, no widget goes under ten cells, and while the
    /// row would overflow the box the first widest widget gives up a
    /// cell.  The widgets then sit side by side, one gap cell apart, on
    /// the box's top row.
    pub fn calculate_coordinates(&self) -> (r: WResult<Vec<Coordinates>>)
        requires
            ({
                let rs = self.spec_ratios_used();
                let xsize = self.coordinates.spec_xsize() as int;
                &&& (self.ratios is Some ==> 1 <= spec_usum(rs) <= 10000)
                &&& (self.ratios is None ==> self.widgets@.len() <= 100)
                &&& rs.len() <= xsize
                &&& self.coordinates.spec_xpos() + xsize + 2 <= 65535
            }),
        ensures
            (r is Err) <==> (self.ratios is None && self.widgets@.len() == 0),
            r matches Err(e) ==> e == WError::NoWidgetError,
            r matches Ok(cs) ==> self.spec_layout_ok(cs@),
    {
        let xsize: u16 = self.coordinates.xsize();
        let ysize: u16 = self.coordinates.ysize();
        let box_x: u16 = self.coordinates.top().x();
        let box_y: u16 = self.coordinates.top().y();

        let equal_holder: Vec<usize>;
        let rs: &Vec<usize> = match &self.ratios {
            Some(v) => v,
            None => {
                equal_holder = self.calculate_equal_ratios()?;
                &equal_holder
            }
        };
        proof {
            assert(rs@ =~= self.spec_ratios_used());
            if self.ratios is None {
                let len = self.widgets@.len() as int;
                assert(1 <= len <= 100);
                let share = (100int / len) as usize;
                assert(1 <= 100int / len <= 100) by (nonlinear_arith)
                    requires
                        1 <= len <= 100,
                ;
                lemma_equal_ratios_sum(rs@, share);
                assert(1 <= len * (share as int) <= 10000) by (nonlinear_arith)
                    requires
                        1 <= len <= 100 && 1 <= share as int <= 100,
                ;
            }
            assert(1 <= spec_usum(rs@) <= 10000);
        }
        let n: usize = rs.len();
        let ghost rsum_spec = spec_usum(rs@);
        let ghost xmax: int = if 10 > xsize as int {
            10int
        } else {
            xsize as int
        };

        // The configured or equal ratios, summed.
        let mut rsum: usize = 0;
        let mut i: usize = 0;
        while i < n
            invariant
                0 <= i <= n,
                n == rs@.len(),
                1 <= rsum_spec <= 10000,
                rsum_spec == spec_usum(rs@),
                rsum == spec_usum(rs@.take(i as int)),
                0 <= rsum <= 10000,
            decreases n - i,
        {
            proof {
                assert(rs@.take(i + 1) =~= rs@.take(i as int).push(rs@[i as int]));
                lemma_usum_push(rs@.take(i as int), rs@[i as int]);
                lemma_usum_take_le(rs@, i + 1);
            }
            rsum = rsum + rs[i];
            i = i + 1;
        }
        proof {
            assert(rs@.take(n as int) =~= rs@);
        }

        // Scale each ratio to the box, at least ten cells wide.
        let ghost scaled_spec = Seq::new(rs@.len(), |k: int| spec_scaled_one(rs@[k], xsize, rsum_spec));
        let mut widths: Vec<usize> = Vec::new();
        let mut i: usize = 0;
        while i < n
            invariant
                0 <= i <= n,
                n == rs@.len(),
                rsum == rsum_spec,
                1 <= rsum_spec <= 10000,
                rsum_spec == spec_usum(rs@),
                xmax == if 10 > xsize as int {
                    10int
                } else {
                    xsize as int
                },
                xmax <= 65535,
                scaled_spec == Seq::new(
                    rs@.len(),
                    |k: int| spec_scaled_one(rs@[k], xsize, rsum_spec),
                ),
                widths@.len() == i,
                forall|k: int| 0 <= k < i ==> #[trigger] widths@[k] == scaled_spec[k],
                forall|k: int| 0 <= k < i ==> 10 <= #[trigger] widths@[k] && widths@[k] as int <= xmax,
            decreases n - i,
        {
            proof {
                lemma_usum_elem_le(rs@, i as int);
                lemma_scaled_bound(rs@[i as int], xsize, rsum_spec);
                assert(2 * (rs@[i as int] as int) * (xsize as int) + rsum_spec <= 1310730000)
                    by (nonlinear_arith)
                    requires
                        rs@[i as int] as int <= 10000 && xsize as int <= 65535 && rsum_spec
                            <= 10000,
                ;
            }
            let num: usize = 2 * rs[i] * (xsize as usize) + rsum;
            let den: usize = 2 * rsum;
            let v: usize = num / den;
            let w: usize = if v < 10 {
                10
            } else {
                v
            };
            widths.push(w);
            i = i + 1;
        }

        // While the row would overflow the box, the widest widget gives
        // up one cell.
        let mut wsum: usize = 0;
        let mut i: usize = 0;
        while i < n
            invariant
                0 <= i <= n,
                n == widths@.len(),
                n <= 65535,
                xmax <= 65535,
                forall|k: int| 0 <= k < n ==> 10 <= #[trigger] widths@[k] && widths@[k] as int <= xmax,
                wsum == spec_usum(widths@.take(i as int)),
                wsum <= i * 65535,
            decreases n - i,
        {
            proof {
                assert(widths@.take(i + 1) =~= widths@.take(i as int).push(widths@[i as int]));
                lemma_usum_push(widths@.take(i as int), widths@[i as int]);
            }
            wsum = wsum + widths[i];
            i = i + 1;
        }
        proof {
            assert(widths@.take(n as int) =~= widths@);
        }

        let ghost shrunk_seq = spec_shrink(scaled_spec, xsize as int);
        proof {
            assert(scaled_spec =~= widths@);
        }
        while wsum + n > (xsize as usize) + 1
            invariant
                n == widths@.len(),
                n <= xsize as int,
                n <= 65535,
                xmax == if 10 > xsize as int {
                    10int
                } else {
                    xsize as int
                },
                xmax <= 65535,
                scaled_spec.len() == n,
                wsum == spec_usum(widths@),
                wsum <= n * 65535,
                forall|k: int| 0 <= k < n ==> (#[trigger] widths@[k]) as int <= xmax,
                shrunk_seq == spec_shrink(widths@, xsize as int),
            decreases wsum,
        {
            proof {
                lemma_usum_bounded(widths@, 65535);
            }
            let mut mi: usize = 0;
            let mut k: usize = 1;
            while k < n
                invariant
                    n == widths@.len(),
                    n >= 1,
                    0 <= mi < k <= n,
                    forall|j: int| 0 <= j < k ==> #[trigger] widths@[j] <= widths@[mi as int],
                    forall|j: int| 0 <= j < mi ==> #[trigger] widths@[j] < widths@[mi as int],
                decreases n - k,
            {
                if widths[k] > widths[mi] {
                    mi = k;
                }
                k = k + 1;
            }
            proof {
                let j = lemma_usum_pos_elem(widths@);
                assert(widths@[mi as int] >= widths@[j]);
                lemma_max_at_unique(widths@, mi as int);
                lemma_usum_update_dec(widths@, mi as int);
                // one unfolding step: the first widest gives up a cell
                assert(spec_shrink(widths@, xsize as int) == spec_shrink(
                    widths@.update(mi as int, (widths@[mi as int] - 1) as usize),
                    xsize as int,
                ));
            }
            let v: usize = widths[mi];
            widths[mi] = v - 1;
            wsum = wsum - 1;
        }
        proof {
            // the adjustment has converged on the spec's fixed point
            assert(spec_shrink(widths@, xsize as int) == widths@);
            assert(widths@ == shrunk_seq);
        }

        // Lay the widgets out side by side on the box's top row.
        let mut coords: Vec<Coordinates> = Vec::new();
        let mut xpos: u16 = box_x;
        let mut i: usize = 0;
        while i < n
            invariant
                0 <= i <= n,
                n == widths@.len(),
                n <= xsize as int,
                scaled_spec.len() == n,
                wsum == spec_usum(widths@),
                wsum + n <= xsize as int + 1,
                box_x as int + xsize as int + 2 <= 65535,
                ysize == self.coordinates.spec_ysize(),
                box_y == self.coordinates.spec_ypos(),
                box_x == self.coordinates.spec_xpos(),
                xsize == self.coordinates.spec_xsize(),
                forall|k: int| 0 <= k < n ==> (#[trigger] widths@[k]) as int <= 65535,
                coords@.len() == i,
                forall|k: int|
                    0 <= k < i ==> (#[trigger] coords@[k]).spec_ysize() == ysize
                        && coords@[k].spec_ypos() == box_y,
                forall|k: int| 0 <= k < i ==> (#[trigger] coords@[k]).spec_xsize() == widths@[k],
                i > 0 ==> coords@[0].spec_xpos() == box_x,
                forall|k: int|
                    0 < k < i ==> (#[trigger] coords@[k]).spec_xpos() == coords@[k
                        - 1].spec_xpos() + coords@[k - 1].spec_xsize() + 1,
                i > 0 ==> xpos as int == coords@[i - 1].spec_xpos() + coords@[i
                    - 1].spec_xsize() + 1,
                xpos as int == box_x + spec_usum(widths@.take(i as int)) + i,
            decreases n - i,
        {
            proof {
                lemma_usum_take_le(widths@, i as int);
                lemma_usum_take_le(widths@, i + 1);
                assert(widths@.take(i + 1) =~= widths@.take(i as int).push(widths@[i as int]));
                lemma_usum_push(widths@.take(i as int), widths@[i as int]);
                lemma_usum_nonneg(widths@.take(i as int));
            }
            let w: u16 = widths[i] as u16;
            let c = Coordinates::new(w, ysize, xpos, box_y);
            coords.push(c);
            xpos = xpos + w + 1;
            i = i + 1;
        }
        proof {
            assert(widths@.take(n as int) =~= widths@);
            lemma_width_sum_matches::<T>(coords@, widths@);
            let used = self.spec_ratios_used();
            assert(Seq::new(
                used.len(),
                |k: int| spec_scaled_one(used[k], self.coordinates.spec_xsize(), spec_usum(used)),
            ) =~= scaled_spec);
        }
        Ok(coords)
    }
}

/// A row whose widths match element for element has the same total.
proof fn lemma_width_sum_matches<T>(cs: Seq<Coordinates>, ws: Seq<usize>)
    requires
        cs.len() == ws.len(),
        forall|k: int| 0 <= k < cs.len() ==> (#[trigger] cs[k]).spec_xsize() == ws[k],
    ensures
        HBox::<T>::spec_width_sum(cs) == spec_usum(ws),
    decreases cs.len(),
{
    if cs.len() > 0 {
        assert(forall|k: int|
            0 <= k < cs.len() - 1 ==> (#[trigger] cs.drop_first()[k]).spec_xsize()
                == ws.drop_first()[k]);
        lemma_width_sum_matches::<T>(cs.drop_first(), ws.drop_first());
    }
}

/// All-equal ratios sum to the shared value times the count.
proof fn lemma_equal_ratios_sum(rs: Seq<usize>, share: usize)
    requires
        forall|k: int| 0 <= k < rs.len() ==> rs[k] == share,
    ensures
        spec_usum(rs) == rs.len() * share,
    decreases rs.len(),
{
    if rs.len() > 0 {
        lemma_equal_ratios_sum(rs.drop_first(), share);
        assert(rs.len() * share == (rs.len() - 1) * share + share) by (nonlinear_arith);
    }
}

} // verus!
