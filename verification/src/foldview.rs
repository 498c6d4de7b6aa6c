use vstd::prelude::*;

use crate::fail::{spec_message, WError, WResult};
use crate::term::{
    color_green, color_red, first_line_len, goto_xy_u, nl_count, normal_color, push_decimal,
    reset, sized_string_u, spec_decimal, spec_first_line_len, spec_nl_count, spec_spaces,
    status_bg, u64_to_string,
};

verus! {

/// An entry that can be shown folded (one line) or unfolded (all its
/// lines).
pub trait Foldable: Sized {
    /// How many lines the entry takes as currently folded.
    spec fn spec_lines(&self) -> int;

    /// Whether the entry is folded.
    spec fn spec_folded(&self) -> bool;

    fn lines(&self) -> (n: usize)
        ensures
            n == self.spec_lines(),
            n >= 1,
    ;

    fn is_folded(&self) -> (b: bool)
        ensures
            b == self.spec_folded(),
    ;

    fn toggle_fold(&mut self)
        ensures
            final(self).spec_folded() == !old(self).spec_folded(),
    ;

    /// Every entry takes at least one line, however it is folded.
    proof fn lines_positive(&self)
        ensures
            self.spec_lines() >= 1,
    ;

    fn description(&self) -> &str;

    fn content(&self) -> Option<&String>;
}

/// One logged failure: a one-line description, the full text behind it,
/// and its fold state.
#[derive(Debug)]
pub struct LogEntry {
    description: String,
    content: Option<String>,
    lines: usize,
    folded: bool,
}

/// The color the entry's text is shown in: plain log lines keep the
/// normal color, failures are red.
pub open spec fn spec_log_color(err: WError) -> Seq<char> {
    if err is Log {
        "\u{1b}[39m"@
    } else {
        "\u{1b}[31m"@
    }
}

/// The head of a log line: the timestamp in green, then the message
/// color.
pub open spec fn spec_log_head(err: WError, stamp: Seq<char>) -> Seq<char> {
    "\u{1b}[32m"@ + stamp + spec_log_color(err) + ": "@
}

/// How many lines the full text of a message takes.
pub open spec fn spec_msg_lines(m: Seq<char>) -> int {
    if spec_nl_count(m) < usize::MAX {
        spec_nl_count(m) + 1
    } else {
        usize::MAX as int
    }
}

/// Whether this entry is the record of the given error: description,
/// content, line count and initial fold state all match, for some
/// timestamp.
pub open spec fn spec_entry_stamped(e: LogEntry, err: WError, stamp: Seq<char>) -> bool {
    let msg = spec_message(err);
    &&& e.spec_description() == spec_log_head(err, stamp) + msg.take(spec_first_line_len(msg))
    &&& e.spec_content() == Some(spec_log_head(err, stamp) + msg + "\n"@)
    &&& e.spec_base_lines() == spec_msg_lines(msg)
    &&& e.spec_folded()
}

pub open spec fn spec_entry_reports(e: LogEntry, err: WError) -> bool {
    exists|stamp: Seq<char>| #[trigger] spec_entry_stamped(e, err, stamp)
}

impl LogEntry {
    pub closed spec fn spec_description(&self) -> Seq<char> {
        self.description@
    }

    pub closed spec fn spec_content(&self) -> Option<Seq<char>> {
        match self.content {
            Some(c) => Some(c@),
            None => None,
        }
    }

    /// The entry's full line count, ignoring the fold.
    pub closed spec fn spec_base_lines(&self) -> int {
        self.lines as int
    }

    /// Law: a folded entry takes exactly one line; an unfolded one takes
    /// its recorded line count, but never less than one.
    pub proof fn lemma_fold_hides_lines(&self)
        ensures
            self.spec_folded() ==> Foldable::spec_lines(self) == 1,
            !self.spec_folded() ==> Foldable::spec_lines(self) == (
            if self.spec_base_lines() < 1 {
                1int
            } else {
                self.spec_base_lines()
            }),
    {
    }

    /// The one-line description, as recorded.
    pub fn description_text(&self) -> (r: &str)
        ensures
            r@ == self.spec_description(),
    {
        self.description.as_str()
    }

    /// Build the log entry for an error: the timestamp in green, the
    /// message color, and the message; the description keeps only the
    /// message's first line, and the entry starts out folded.
    pub fn from_error(err: &WError, stamp: &str) -> (e: LogEntry)
        ensures
            e.spec_description() == spec_log_head(*err, stamp@) + spec_message(*err).take(
                spec_first_line_len(spec_message(*err)),
            ),
            e.spec_content() == Some(spec_log_head(*err, stamp@) + spec_message(*err) + "\n"@),
            e.spec_base_lines() == spec_msg_lines(spec_message(*err)),
            e.spec_folded(),
            spec_entry_reports(e, *err),
    {
        let msg = err.message();
        let mut head = String::from_str(color_green());
        head.append(stamp);
        let is_log = match err {
            WError::Log(_) => true,
            _ => false,
        };
        if is_log {
            head.append(normal_color());
        } else {
            head.append(color_red());
        }
        head.append(": ");
        proof {
            assert(head@ =~= spec_log_head(*err, stamp@));
        }

        let flen = first_line_len(msg.as_str());
        let first = msg.as_str().substring_char(0, flen);
        let mut description = head.clone();
        description.append(first);
        proof {
            assert(msg@.take(flen as int) == spec_message(*err).take(
                spec_first_line_len(spec_message(*err)),
            ));
        }

        let mut content = head;
        content.append(msg.as_str());
        content.append("\n");

        let n = nl_count(msg.as_str());
        let lines: usize = if n < usize::MAX {
            n + 1
        } else {
            n
        };

        let e = LogEntry { description, content: Some(content), lines, folded: true };
        proof {
            assert(spec_entry_stamped(e, *err, stamp@));
        }
        e
    }
}

impl Foldable for LogEntry {
    closed spec fn spec_lines(&self) -> int {
        if self.folded {
            1
        } else if self.lines < 1 {
            1
        } else {
            self.lines as int
        }
    }

    closed spec fn spec_folded(&self) -> bool {
        self.folded
    }

    fn lines(&self) -> (n: usize)
        ensures
            n == self.spec_lines(),
            n >= 1,
    {
        if self.folded {
            1
        } else if self.lines < 1 {
            1
        } else {
            self.lines
        }
    }

    fn is_folded(&self) -> (b: bool)
        ensures
            b == self.spec_folded(),
    {
        self.folded
    }

    fn toggle_fold(&mut self)
        ensures
            final(self).spec_folded() == !old(self).spec_folded(),
    {
        self.folded = !self.folded;
    }

    proof fn lines_positive(&self) {
    }

    fn description(&self) -> &str {
        self.description.as_str()
    }

    fn content(&self) -> Option<&String> {
        self.content.as_ref()
    }
}

/// A scrollable list of entries with one selected line.
#[derive(Debug)]
pub struct ListView<T> {
    pub content: T,
    pub selection: usize,
}

impl<T> ListView<T> {
    pub open spec fn spec_selection(&self) -> int {
        self.selection as int
    }

    pub fn new(content: T) -> (l: ListView<T>)
        ensures
            l.content == content,
            l.spec_selection() == 0,
    {
        ListView { content, selection: 0 }
    }

    pub fn get_selection(&self) -> (r: usize)
        ensures
            r == self.spec_selection(),
    {
        self.selection
    }

    pub fn set_selection(&mut self, position: usize)
        ensures
            final(self).spec_selection() == position,
            final(self).content == old(self).content,
    {
        self.selection = position;
    }
}

/// The number of lines the first `count` entries take, as folded now.
pub open spec fn spec_fold_lines<F: Foldable>(s: Seq<F>, count: int) -> int
    decreases count,
{
    if count <= 0 || s.len() == 0 {
        0
    } else {
        s[0].spec_lines() + spec_fold_lines(s.drop_first(), count - 1)
    }
}

/// The index of the entry whose lines cover the given line position.
pub open spec fn spec_fold_at<F: Foldable>(s: Seq<F>, pos: int) -> Option<int>
    decreases s.len(),
{
    if s.len() == 0 {
        None
    } else if s[0].spec_lines() > pos {
        Some(0)
    } else {
        match spec_fold_at(s.drop_first(), pos - s[0].spec_lines()) {
            Some(i) => Some(i + 1),
            None => None,
        }
    }
}

impl<F: Foldable> ListView<Vec<F>> {
    /// Folded entries take one line each, so line positions and entry
    /// indices drift apart; the fold arithmetic needs the total to fit.
    pub open spec fn spec_total_lines(&self) -> int {
        spec_fold_lines(self.content@, self.content@.len() as int)
    }

    /// The first screen line of the given entry.
    pub fn fold_start_pos(&self, fold: usize) -> (r: usize)
        requires
            fold <= self.content@.len(),
            self.spec_total_lines() <= usize::MAX,
        ensures
            r == spec_fold_lines(self.content@, fold as int),
    {
        let mut pos: usize = 0;
        let mut i: usize = 0;
        while i < fold
            invariant
                0 <= i <= fold <= self.content@.len(),
                self.spec_total_lines() <= usize::MAX,
                pos == spec_fold_lines(self.content@, i as int),
            decreases fold - i,
        {
            proof {
                lemma_fold_lines_step(self.content@, i as int);
                lemma_fold_lines_le(self.content@, i + 1, self.content@.len() as int);
                lemma_fold_lines_nonneg(self.content@, i as int);
            }
            pos = pos + self.content[i].lines();
            i = i + 1;
        }
        pos
    }

    /// The entry the selected line sits in, if the selection is within
    /// the list.
    pub fn current_fold(&self) -> (r: Option<usize>)
        requires
            self.spec_total_lines() <= usize::MAX,
        ensures
            match r {
                Some(i) => spec_fold_at(self.content@, self.spec_selection()) == Some(i as int),
                None => spec_fold_at(self.content@, self.spec_selection()) is None,
            },
    {
        let pos = self.get_selection();
        let mut acc: usize = 0;
        let mut i: usize = 0;
        proof {
            assert(self.content@.skip(0) =~= self.content@);
        }
        while i < self.content.len()
            invariant
                0 <= i <= self.content@.len(),
                self.spec_total_lines() <= usize::MAX,
                acc == spec_fold_lines(self.content@, i as int),
                pos == self.spec_selection(),
                spec_fold_at(self.content@, pos as int) == (match spec_fold_at(
                    self.content@.skip(i as int),
                    pos - acc,
                ) {
                    Some(j) => Some(j + i),
                    None => None::<int>,
                }),
            decreases self.content@.len() - i,
        {
            proof {
                lemma_fold_lines_step(self.content@, i as int);
                lemma_fold_lines_le(self.content@, i + 1, self.content@.len() as int);
                lemma_fold_lines_nonneg(self.content@, i as int);
                assert(self.content@.skip(i as int)[0] == self.content@[i as int]);
                assert(self.content@.skip(i as int).drop_first() =~= self.content@.skip(i + 1));
            }
            let l = self.content[i].lines();
            if acc + l > pos {
                return Some(i);
            }
            acc = acc + l;
            i = i + 1;
        }
        proof {
            assert(self.content@.skip(self.content@.len() as int).len() == 0);
        }
        None
    }

    /// Fold or unfold the entry under the selection; when an entry folds
    /// shut, the selection snaps to its first line.
    pub fn toggle_fold(&mut self) -> (r: WResult<()>)
        requires
            old(self).spec_total_lines() <= usize::MAX,
        ensures
            (r is Ok) == (spec_fold_at(old(self).content@, old(self).spec_selection()) is Some),
            r matches Err(e) ==> e == WError::NoneError && *final(self) == *old(self),
            r is Ok ==> ({
                let fold = spec_fold_at(old(self).content@, old(self).spec_selection()).unwrap();
                &&& final(self).content@.len() == old(self).content@.len()
                &&& forall|k: int|
                    0 <= k < old(self).content@.len() && k != fold ==> final(self).content@[k]
                        == old(self).content@[k]
                &&& final(self).content@[fold].spec_folded() == !old(
                    self,
                ).content@[fold].spec_folded()
                &&& (final(self).content@[fold].spec_folded() ==> final(self).spec_selection()
                    == spec_fold_lines(old(self).content@, fold))
                &&& (!final(self).content@[fold].spec_folded() ==> final(self).spec_selection()
                    == old(self).spec_selection())
            }),
    {
        let fold = match self.current_fold() {
            Some(f) => f,
            None => {
                return Err(WError::NoneError);
            }
        };
        proof {
            lemma_fold_at_in_range(self.content@, self.spec_selection());
        }
        let fold_pos = self.fold_start_pos(fold);
        let entry = &mut self.content[fold];
        entry.toggle_fold();
        proof {
            lemma_fold_lines_same(
                old(self).content@,
                self.content@,
                fold as int,
            );
        }
        if self.content[fold].is_folded() {
            self.set_selection(fold_pos);
        }
        Ok(())
    }
}

impl ListView<Vec<LogEntry>> {
    /// The fold the header's position hint names: the covering entry's
    /// number, or zero while the selection is past the end.
    pub open spec fn spec_header_current(&self) -> int {
        match spec_fold_at(self.content@, self.spec_selection()) {
            Some(i) => i + 1,
            None => 0,
        }
    }

    /// The header's `current / total` hint.
    pub open spec fn spec_header_hint(&self) -> Seq<char> {
        spec_decimal(self.spec_header_current()) + " / "@ + spec_decimal(
            self.content@.len() as int,
        )
    }

    /// The log view's header: the entry count on the left, and a
    /// `current / total` hint pushed against the right edge.
    pub fn render_header(&self, xsize: usize) -> (r: String)
        requires
            self.spec_total_lines() <= usize::MAX,
            self.content@.len() < usize::MAX,
            xsize < 65535,
            xsize >= self.spec_header_hint().len(),
        ensures
            ({
                let num = self.content@.len() as int;
                let hint = self.spec_header_hint();
                let hint_xpos = xsize - hint.len();
                r@ == "Logged entries: "@ + spec_decimal(num) + "\u{1b}["@ + spec_decimal(1)
                    + ";"@ + spec_decimal(hint_xpos + 1) + "H"@ + hint
            }),
    {
        let num = self.content.len();
        let current: usize = match self.current_fold() {
            Some(n) => {
                proof {
                    lemma_fold_at_in_range(self.content@, self.spec_selection());
                }
                n + 1
            }
            None => 0,
        };
        let mut hint = u64_to_string(current as u64);
        hint.append(" / ");
        push_decimal(&mut hint, num as u64);
        proof {
            assert(hint@ =~= self.spec_header_hint());
        }
        let hlen = hint.as_str().unicode_len();
        let hint_xpos = xsize - hlen;
        let mut r = String::from_str("Logged entries: ");
        push_decimal(&mut r, num as u64);
        let g = goto_xy_u(hint_xpos, 0);
        r.append(g.as_str());
        r.append(hint.as_str());
        proof {
            assert(r@ =~= "Logged entries: "@ + spec_decimal(num as int) + "\u{1b}["@
                + spec_decimal(1) + ";"@ + spec_decimal(hint_xpos + 1) + "H"@ + hint@);
        }
        r
    }

    /// The footer's `line / lines` hint for the covering entry.
    pub open spec fn spec_footer_hint(&self, i: int) -> Seq<char> {
        spec_decimal(
            self.spec_selection() - spec_fold_lines(self.content@, i) + 1,
        ) + " / "@ + spec_decimal(self.content@[i].spec_lines())
    }

    /// The log view's footer: the covering entry's description, cut to
    /// fit, and a `line / lines` hint on the status line below.
    pub fn render_footer(&self, xsize: usize, ysize: usize, ypos: usize) -> (r: WResult<String>)
        requires
            self.spec_total_lines() <= usize::MAX,
            self.spec_selection() < usize::MAX,
            ysize + ypos + 1 < 65535,
            xsize < 65535,
            spec_fold_at(self.content@, self.spec_selection()) matches Some(i) ==> xsize
                >= self.spec_footer_hint(i).len() + 2,
        ensures
            spec_fold_at(self.content@, self.spec_selection()) is None ==> (r matches Err(e) && e
                == WError::NoneError),
            spec_fold_at(self.content@, self.spec_selection()) matches Some(i) ==> (r matches Ok(
                f,
            ) && ({
                let hint = self.spec_footer_hint(i);
                let width = xsize - (hint.len() + 2);
                let desc = self.content@[i].spec_description();
                let sized = if desc.len() >= width {
                    desc.take(width as int)
                } else {
                    desc + spec_spaces(width - desc.len())
                };
                f@ == sized + "\u{1b}[m"@ + "\u{1b}[44m"@ + "\u{1b}["@ + spec_decimal(
                    ysize + ypos + 2,
                ) + ";"@ + spec_decimal(xsize - hint.len() + 1) + "H"@ + hint
            })),
    {
        let current = match self.current_fold() {
            Some(c) => c,
            None => {
                return Err(WError::NoneError);
            }
        };
        proof {
            lemma_fold_at_in_range(self.content@, self.spec_selection());
            lemma_fold_at_starts_before(self.content@, self.spec_selection());
        }
        let start_pos = self.fold_start_pos(current);
        let selection = self.get_selection();
        let entry = &self.content[current];
        let lines = entry.lines();
        let current_line = (selection - start_pos) + 1;

        let mut hint = u64_to_string(current_line as u64);
        hint.append(" / ");
        push_decimal(&mut hint, lines as u64);
        proof {
            assert(hint@ =~= self.spec_footer_hint(current as int));
        }
        let hlen = hint.as_str().unicode_len();
        let width = xsize - (hlen + 2);
        let sized = sized_string_u(entry.description_text(), width);

        let mut f = sized;
        f.append(reset());
        f.append(status_bg());
        let g = goto_xy_u(xsize - hlen, ysize + ypos + 1);
        f.append(g.as_str());
        f.append(hint.as_str());
        proof {
            let i = current as int;
            let hintv = self.spec_footer_hint(i);
            let desc = self.content@[i].spec_description();
            let w = xsize - (hintv.len() + 2);
            let sizedv = if desc.len() >= w {
                desc.take(w as int)
            } else {
                desc + spec_spaces(w - desc.len())
            };
            assert(f@ =~= sizedv + "\u{1b}[m"@ + "\u{1b}[44m"@ + "\u{1b}["@ + spec_decimal(
                ysize + ypos + 2,
            ) + ";"@ + spec_decimal(xsize - hintv.len() + 1) + "H"@ + hintv);
        }
        Ok(f)
    }
}

/// Adding the next entry extends the covered lines by its count.
proof fn lemma_fold_lines_step<F: Foldable>(s: Seq<F>, i: int)
    requires
        0 <= i < s.len(),
    ensures
        spec_fold_lines(s, i + 1) == spec_fold_lines(s, i) + s[i].spec_lines(),
    decreases i,
{
    if i == 0 {
        assert(spec_fold_lines(s, 0) == 0);
        assert(spec_fold_lines(s.drop_first(), 0) == 0);
    } else {
        assert(s.drop_first()[i - 1] == s[i]);
        lemma_fold_lines_step(s.drop_first(), i - 1);
    }
}

/// Covering more entries never covers fewer lines.
proof fn lemma_fold_lines_le<F: Foldable>(s: Seq<F>, i: int, j: int)
    requires
        0 <= i <= j <= s.len(),
    ensures
        spec_fold_lines(s, i) <= spec_fold_lines(s, j),
    decreases j - i,
{
    if i < j {
        lemma_fold_lines_step(s, i);
        s[i].lines_positive();
        lemma_fold_lines_le(s, i + 1, j);
    }
}

/// Lines covered so far never go negative.
proof fn lemma_fold_lines_nonneg<F: Foldable>(s: Seq<F>, i: int)
    requires
        0 <= i <= s.len(),
    ensures
        spec_fold_lines(s, i) >= 0,
    decreases i,
{
    if i > 0 && s.len() > 0 {
        s[0].lines_positive();
        lemma_fold_lines_nonneg(s.drop_first(), i - 1);
    }
}

/// The covering entry's index lies within the list.
proof fn lemma_fold_at_in_range<F: Foldable>(s: Seq<F>, pos: int)
    requires
        spec_fold_at(s, pos) is Some,
    ensures
        0 <= spec_fold_at(s, pos).unwrap() < s.len(),
    decreases s.len(),
{
    if s.len() > 0 && !(s[0].spec_lines() > pos) {
        lemma_fold_at_in_range(s.drop_first(), pos - s[0].spec_lines());
    }
}

/// The covering entry starts at or before the position it covers.
proof fn lemma_fold_at_starts_before<F: Foldable>(s: Seq<F>, pos: int)
    requires
        pos >= 0,
        spec_fold_at(s, pos) is Some,
    ensures
        spec_fold_lines(s, spec_fold_at(s, pos).unwrap()) <= pos,
    decreases s.len(),
{
    if s.len() > 0 && !(s[0].spec_lines() > pos) {
        s[0].lines_positive();
        lemma_fold_at_in_range(s.drop_first(), pos - s[0].spec_lines());
        lemma_fold_at_starts_before(s.drop_first(), pos - s[0].spec_lines());
        let i = spec_fold_at(s, pos).unwrap();
        lemma_fold_lines_step_from_zero(s, i);
    }
}

/// Unrolling the covered-lines sum once at the front.
proof fn lemma_fold_lines_step_from_zero<F: Foldable>(s: Seq<F>, i: int)
    requires
        1 <= i,
        s.len() > 0,
    ensures
        spec_fold_lines(s, i) == s[0].spec_lines() + spec_fold_lines(s.drop_first(), i - 1),
{
}

/// Lines before an untouched prefix stay as they were.
proof fn lemma_fold_lines_same<F: Foldable>(a: Seq<F>, b: Seq<F>, count: int)
    requires
        a.len() == b.len(),
        0 <= count <= a.len(),
        forall|k: int| 0 <= k < count ==> a[k] == b[k],
    ensures
        spec_fold_lines(a, count) == spec_fold_lines(b, count),
    decreases count,
{
    if count > 0 && a.len() > 0 {
        assert(forall|k: int|
            0 <= k < count - 1 ==> a.drop_first()[k] == b.drop_first()[k]);
        lemma_fold_lines_same(a.drop_first(), b.drop_first(), count - 1);
    }
}

} // verus!
