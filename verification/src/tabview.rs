use vstd::prelude::*;

use crate::fail::{WError, WResult};
use crate::term::spec_decimal;

verus! {

/// One tab's entry in the header: a space, its number, a colon, its
/// name; the active tab is shown inverted, and hands the line back to
/// the header color.
pub open spec fn spec_tab_entry(num: int, name: Seq<char>, active: bool) -> Seq<char> {
    if active {
        " "@ + "\u{1b}[7m"@ + spec_decimal(num) + ":"@ + name + "\u{1b}[m"@ + "\u{1b}[37m"@
    } else {
        " "@ + spec_decimal(num) + ":"@ + name
    }
}

/// The run of tab entries from the given position on.
pub open spec fn spec_tab_entries(names: Seq<Seq<char>>, active: int, from: int) -> Seq<char>
    decreases names.len() - from,
{
    if from < 0 || from >= names.len() {
        Seq::empty()
    } else {
        spec_tab_entry(from, names[from], from == active) + spec_tab_entries(
            names,
            active,
            from + 1,
        )
    }
}

/// How many cells the plain `num:name ` forms of the entries take, which
/// decides where the row of tab numbers starts.
pub open spec fn spec_tab_entries_len(names: Seq<Seq<char>>, from: int) -> int
    decreases names.len() - from,
{
    if from < 0 || from >= names.len() {
        0
    } else {
        spec_decimal(from).len() + 1 + names[from].len() + 1 + spec_tab_entries_len(
            names,
            from + 1,
        )
    }
}

/// A row of tabs, one of them active.
#[derive(Debug)]
pub struct TabView<T> {
    pub widgets: Vec<T>,
    pub active: usize,
}

impl<T> TabView<T> {
    pub fn new() -> (t: TabView<T>)
        ensures
            t.widgets@.len() == 0,
            t.active == 0,
    {
        TabView { widgets: Vec::new(), active: 0 }
    }

    pub fn push_widget(&mut self, widget: T) -> (r: WResult<()>)
        ensures
            r is Ok,
            final(self).widgets@ == old(self).widgets@.push(widget),
            final(self).active == old(self).active,
    {
        self.widgets.push(widget);
        Ok(())
    }

    /// Drop the last tab; the active index steps back when it would fall
    /// off the end.
    pub fn pop_widget(&mut self) -> (r: WResult<T>)
        requires
            old(self).widgets@.len() != 1,
        ensures
            old(self).widgets@.len() == 0 ==> (r matches Err(e) && e == WError::NoneError
                && final(self).widgets@ == old(self).widgets@ && final(self).active == old(
                self,
            ).active),
            old(self).widgets@.len() > 1 ==> (r matches Ok(w) && w == old(self).widgets@.last()
                && final(self).widgets@ == old(self).widgets@.drop_last() && final(self).active
                == (if old(self).widgets@.len() - 1 <= old(self).active {
                (old(self).active - 1) as usize
            } else {
                old(self).active
            })),
    {
        let widget = match self.widgets.pop() {
            Some(w) => w,
            None => {
                return Err(WError::NoneError);
            }
        };
        if self.widgets.len() <= self.active {
            self.active = self.active - 1;
        }
        Ok(widget)
    }

    /// Drop the tab at the index; the last of several tabs pulls the
    /// active index back with it.  A single tab stays.
    pub fn remove_widget(&mut self, index: usize) -> (r: WResult<()>)
        requires
            old(self).widgets@.len() > 1 ==> index < old(self).widgets@.len(),
            (old(self).widgets@.len() > 1 && index + 1 == old(self).widgets@.len()) ==> old(
                self,
            ).active >= 1,
        ensures
            r is Ok,
            old(self).widgets@.len() <= 1 ==> *final(self) == *old(self),
            old(self).widgets@.len() > 1 ==> final(self).widgets@ == old(self).widgets@.remove(
                index as int,
            ) && final(self).active == (if index + 1 == old(self).widgets@.len() {
                (old(self).active - 1) as usize
            } else {
                old(self).active
            }),
    {
        let len = self.widgets.len();
        if len > 1 {
            self.widgets.remove(index);
            if index + 1 == len {
                self.active = self.active - 1;
            }
        }
        Ok(())
    }

    /// Switch to the tab at the index; an index past the end does
    /// nothing.
    pub fn goto_tab_(&mut self, index: usize) -> (r: WResult<()>)
        ensures
            r is Ok,
            index < old(self).widgets@.len() ==> final(self).active == index,
            index >= old(self).widgets@.len() ==> final(self).active == old(self).active,
            final(self).widgets@ == old(self).widgets@,
    {
        if index < self.widgets.len() {
            self.active = index;
        }
        Ok(())
    }

    pub fn active_tab_(&self) -> (r: &T)
        requires
            self.active < self.widgets@.len(),
        ensures
            *r == self.widgets@[self.active as int],
    {
        &self.widgets[self.active]
    }

    pub fn active_tab_mut_(&mut self) -> (r: &mut T)
        requires
            old(self).active < old(self).widgets@.len(),
        ensures
            *r == old(self).widgets@[old(self).active as int],
            final(self).widgets@ == old(self).widgets@.update(
                old(self).active as int,
                *final(r),
            ),
            final(self).active == old(self).active,
    {
        &mut self.widgets[self.active]
    }

    /// Close the active tab.
    pub fn close_tab_(&mut self) -> (r: WResult<()>)
        requires
            old(self).widgets@.len() > 1 ==> old(self).active < old(self).widgets@.len(),
            (old(self).widgets@.len() > 1 && old(self).active + 1 == old(self).widgets@.len())
                ==> old(self).active >= 1,
        ensures
            r is Ok,
            old(self).widgets@.len() <= 1 ==> *final(self) == *old(self),
            old(self).widgets@.len() > 1 ==> final(self).widgets@ == old(self).widgets@.remove(
                old(self).active as int,
            ),
    {
        let active = self.active;
        self.remove_widget(active)
    }

    /// The header line: the active tab's own header, then the numbered
    /// tab names pushed against the right edge.
    pub fn render_header(&self, names: &Vec<String>, xsize: u16, header: &str) -> (r: String)
        requires
            spec_tab_entries_len(names.deep_view(), 0) <= u16::MAX,
            names@.len() == self.widgets@.len(),
        ensures
            ({
                let nums_len = spec_tab_entries_len(names.deep_view(), 0);
                let pos: int = if nums_len >= xsize as int {
                    0
                } else {
                    xsize as int - nums_len
                };
                r@ == header@ + "\u{1b}[37m"@ + "\u{1b}["@ + spec_decimal(1) + ";"@
                    + spec_decimal(pos) + "H"@ + spec_tab_entries(
                    names.deep_view(),
                    self.active as int,
                    0,
                )
            }),
    {
        let mut tabnums = String::new();
        let mut nums_length: usize = 0;
        let mut num: usize = 0;
        proof {
            assert(tabnums@ + spec_tab_entries(names.deep_view(), self.active as int, 0)
                =~= spec_tab_entries(names.deep_view(), self.active as int, 0));
            lemma_tab_entries_len_nonneg(names.deep_view(), 0);
        }
        while num < names.len()
            invariant
                0 <= num <= names@.len(),
                tabnums@ + spec_tab_entries(names.deep_view(), self.active as int, num as int)
                    == spec_tab_entries(names.deep_view(), self.active as int, 0),
                nums_length + spec_tab_entries_len(names.deep_view(), num as int)
                    == spec_tab_entries_len(names.deep_view(), 0),
                spec_tab_entries_len(names.deep_view(), 0) <= u16::MAX,
                spec_tab_entries_len(names.deep_view(), num as int) >= 0,
            decreases names@.len() - num,
        {
            proof {
                assert(names.deep_view()[num as int] == names@[num as int]@);
                lemma_tab_entries_len_nonneg(names.deep_view(), num + 1);
            }
            let ghost before = tabnums@;
            let name: &String = &names[num];
            tabnums.append(" ");
            if num == self.active {
                tabnums.append(crate::term::invert());
                crate::term::push_decimal(&mut tabnums, num as u64);
                tabnums.append(":");
                tabnums.append(name.as_str());
                tabnums.append(crate::term::reset());
                tabnums.append(crate::term::header_color());
            } else {
                crate::term::push_decimal(&mut tabnums, num as u64);
                tabnums.append(":");
                tabnums.append(name.as_str());
            }
            proof {
                reveal_strlit(" ");
                reveal_strlit(":");
                assert(tabnums@ =~= before + spec_tab_entry(
                    num as int,
                    names.deep_view()[num as int],
                    num == self.active,
                ));
            }
            let digits = crate::term::u64_to_string(num as u64);
            let dlen = digits.as_str().unicode_len();
            let nlen = name.as_str().unicode_len();
            nums_length = nums_length + dlen + 1 + nlen + 1;
            num = num + 1;
        }
        let nums_pos: u16 = if nums_length >= xsize as usize {
            0
        } else {
            xsize - (nums_length as u16)
        };
        let mut r = String::from_str(header);
        r.append(crate::term::header_color());
        let goto = crate::term::goto_xy(nums_pos, 1);
        r.append(goto.as_str());
        r.append(tabnums.as_str());
        proof {
            assert(tabnums@ + spec_tab_entries(
                names.deep_view(),
                self.active as int,
                names@.len() as int,
            ) =~= tabnums@);
            assert(r@ =~= header@ + "\u{1b}[37m"@ + "\u{1b}["@ + spec_decimal(1) + ";"@
                + spec_decimal(nums_pos as int) + "H"@ + tabnums@);
        }
        r
    }

    /// Move to the next tab, wrapping past the last.
    pub fn next_tab_(&mut self)
        requires
            old(self).active < usize::MAX,
        ensures
            final(self).widgets@ == old(self).widgets@,
            old(self).active + 1 == old(self).widgets@.len() ==> final(self).active == 0,
            old(self).active + 1 != old(self).widgets@.len() ==> final(self).active == old(
                self,
            ).active + 1,
    {
        if self.active + 1 == self.widgets.len() {
            self.active = 0;
        } else {
            self.active = self.active + 1;
        }
    }

    /// Move to the previous tab, wrapping past the first.
    pub fn prev_tab_(&mut self)
        requires
            old(self).widgets@.len() >= 1,
        ensures
            final(self).widgets@ == old(self).widgets@,
            old(self).active == 0 ==> final(self).active == old(self).widgets@.len() - 1,
            old(self).active != 0 ==> final(self).active == old(self).active - 1,
    {
        if self.active == 0 {
            self.active = self.widgets.len() - 1;
        } else {
            self.active = self.active - 1;
        }
    }
}


/// The plain widths of the remaining entries never sum negative.
proof fn lemma_tab_entries_len_nonneg(names: Seq<Seq<char>>, from: int)
    ensures
        spec_tab_entries_len(names, from) >= 0,
    decreases names.len() - from,
{
    if 0 <= from < names.len() {
        lemma_tab_entries_len_nonneg(names, from + 1);
    }
}

} // verus!
