use vstd::prelude::*;

use crate::fail::{WError, WResult};
use crate::term::{goto_xy, pad_right, push_char, reset, spec_spaces, Key};

verus! {

/// The first position holding the key, if the key is recorded.
pub open spec fn spec_key_at(pairs: Seq<(char, Seq<char>)>, key: char) -> Option<int>
    decreases pairs.len(),
{
    if pairs.len() == 0 {
        None
    } else if pairs[0].0 == key {
        Some(0)
    } else {
        match spec_key_at(pairs.drop_first(), key) {
            Some(i) => Some(i + 1),
            None => None,
        }
    }
}

/// Record a bookmark in the view: replace the key's path if the key is
/// recorded, else append the pair.
pub open spec fn spec_put(pairs: Seq<(char, Seq<char>)>, key: char, path: Seq<char>) -> Seq<
    (char, Seq<char>),
> {
    match spec_key_at(pairs, key) {
        Some(i) => pairs.update(i, (key, path)),
        None => pairs.push((key, path)),
    }
}

/// One line of the bookmark file: the key, a colon, the path.  A line
/// whose colon comes first or not at all records nothing.
pub open spec fn spec_parse_line(l: Seq<char>) -> Option<(char, Seq<char>)> {
    let j = crate::strutil::spec_find_colon(l);
    if 1 <= j < l.len() {
        Some((l[0], l.skip(j + 1)))
    } else if j >= 1 && j >= l.len() {
        None
    } else {
        None
    }
}

/// The bookmarks after reading the given lines in order.
pub open spec fn spec_load(
    pairs: Seq<(char, Seq<char>)>,
    lines: Seq<Seq<char>>,
) -> Seq<(char, Seq<char>)>
    decreases lines.len(),
{
    if lines.len() == 0 {
        pairs
    } else {
        let rest = match spec_parse_line(lines[0]) {
            Some((k, p)) => spec_put(pairs, k, p),
            None => pairs,
        };
        spec_load(rest, lines.drop_first())
    }
}

/// The user's bookmarks: single-character keys naming directories.
#[derive(Debug)]
pub struct Bookmarks {
    mapping: Vec<(char, String)>,
}

impl Bookmarks {
    /// The recorded pairs, keys and paths as plain sequences.
    pub closed spec fn spec_pairs(&self) -> Seq<(char, Seq<char>)> {
        Seq::new(self.mapping@.len(), |i: int| (self.mapping@[i].0, self.mapping@[i].1@))
    }

    /// An empty bookmark collection; the stored file is read in through
    /// `load_from_lines`.
    pub fn new() -> (b: Bookmarks)
        ensures
            b.spec_pairs().len() == 0,
    {
        let b = Bookmarks { mapping: Vec::new() };
        proof {
            assert(b.spec_pairs() =~= Seq::<(char, Seq<char>)>::empty());
        }
        b
    }

    /// Record one bookmark, replacing the key's old path if it had one.
    pub fn add(&mut self, key: char, path: &str) -> (r: WResult<()>)
        ensures
            r is Ok,
            final(self).spec_pairs() == spec_put(old(self).spec_pairs(), key, path@),
    {
        let ghost pre = self.spec_pairs();
        let mut i: usize = 0;
        while i < self.mapping.len()
            invariant
                0 <= i <= self.mapping@.len(),
                pre == self.spec_pairs(),
                pre == old(self).spec_pairs(),
                forall|k: int| 0 <= k < i ==> (#[trigger] self.spec_pairs()[k]).0 != key,
            decreases self.mapping@.len() - i,
        {
            if self.mapping[i].0 == key {
                let owned = path.to_owned();
                self.mapping[i] = (key, owned);
                proof {
                    lemma_key_at_found(pre, key, i as int);
                    assert(self.spec_pairs() =~= pre.update(i as int, (key, path@)));
                }
                return Ok(());
            }
            i = i + 1;
        }
        proof {
            lemma_key_at_none(pre, key);
        }
        let owned = path.to_owned();
        self.mapping.push((key, owned));
        proof {
            assert(self.spec_pairs() =~= pre.push((key, path@)));
        }
        Ok(())
    }

    /// Drop the key's bookmark, if it has one.
    pub fn remove(&mut self, key: char)
        ensures
            spec_key_at(old(self).spec_pairs(), key) matches Some(i) ==> final(self).spec_pairs()
                == old(self).spec_pairs().remove(i),
            spec_key_at(old(self).spec_pairs(), key) is None ==> final(self).spec_pairs() == old(
                self,
            ).spec_pairs(),
    {
        let ghost pre = self.spec_pairs();
        let mut i: usize = 0;
        while i < self.mapping.len()
            invariant
                0 <= i <= self.mapping@.len(),
                pre == self.spec_pairs(),
                pre == old(self).spec_pairs(),
                forall|k: int| 0 <= k < i ==> (#[trigger] self.spec_pairs()[k]).0 != key,
            decreases self.mapping@.len() - i,
        {
            if self.mapping[i].0 == key {
                self.mapping.remove(i);
                proof {
                    lemma_key_at_found(pre, key, i as int);
                    assert(self.spec_pairs() =~= pre.remove(i as int));
                }
                return ;
            }
            i = i + 1;
        }
        proof {
            lemma_key_at_none(pre, key);
        }
    }

    /// The path recorded under the key.
    pub fn get(&self, key: char) -> (r: WResult<&String>)
        ensures
            (r is Ok) == (spec_key_at(self.spec_pairs(), key) is Some),
            r matches Ok(p) ==> spec_key_at(self.spec_pairs(), key) matches Some(i)
                && p@ == self.spec_pairs()[i].1,
            r matches Err(e) ==> e == WError::BookmarkNotFound,
    {
        let mut i: usize = 0;
        while i < self.mapping.len()
            invariant
                0 <= i <= self.mapping@.len(),
                forall|k: int| 0 <= k < i ==> (#[trigger] self.spec_pairs()[k]).0 != key,
            decreases self.mapping@.len() - i,
        {
            if self.mapping[i].0 == key {
                proof {
                    lemma_key_at_found(self.spec_pairs(), key, i as int);
                }
                return Ok(&self.mapping[i].1);
            }
            i = i + 1;
        }
        proof {
            lemma_key_at_none(self.spec_pairs(), key);
        }
        Err(WError::BookmarkNotFound)
    }

    /// Read the stored bookmark file, line by line; later lines replace
    /// earlier ones with the same key.
    pub fn load_from_lines(&mut self, lines: &Vec<String>)
        ensures
            final(self).spec_pairs() == spec_load(old(self).spec_pairs(), lines.deep_view()),
    {
        let mut i: usize = 0;
        proof {
            assert(lines.deep_view().skip(0) =~= lines.deep_view());
        }
        while i < lines.len()
            invariant
                0 <= i <= lines@.len(),
                spec_load(self.spec_pairs(), lines.deep_view().skip(i as int)) == spec_load(
                    old(self).spec_pairs(),
                    lines.deep_view(),
                ),
            decreases lines@.len() - i,
        {
            proof {
                assert(lines.deep_view()[i as int] == lines@[i as int]@);
                assert(lines.deep_view().skip(i as int)[0] == lines.deep_view()[i as int]);
                assert(lines.deep_view().skip(i as int).drop_first() =~= lines.deep_view().skip(
                    i + 1,
                ));
            }
            let line: &String = &lines[i];
            let j = crate::strutil::find_colon(line.as_str());
            let llen = line.as_str().unicode_len();
            if 1 <= j && j < llen {
                let key = line.as_str().get_char(0);
                let path = line.as_str().substring_char(j + 1, llen);
                let r = self.add(key, path);
                proof {
                    assert(spec_parse_line(line@) == Some((key, path@)));
                }
            } else {
                proof {
                    assert(spec_parse_line(line@) is None);
                }
            }
            i = i + 1;
        }
        proof {
            assert(lines.deep_view().skip(lines@.len() as int).len() == 0);
        }
    }

    /// The bookmark file's lines: one `key:path` line per bookmark.
    pub fn save_to_lines(&self) -> (r: Vec<String>)
        ensures
            r.deep_view().len() == self.spec_pairs().len(),
            forall|i: int|
                0 <= i < r.deep_view().len() ==> #[trigger] r.deep_view()[i] == seq![
                    self.spec_pairs()[i].0,
                ] + ":"@ + self.spec_pairs()[i].1,
    {
        let mut out: Vec<String> = Vec::new();
        let mut i: usize = 0;
        while i < self.mapping.len()
            invariant
                0 <= i <= self.mapping@.len(),
                out.deep_view().len() == i,
                forall|k: int|
                    0 <= k < i ==> #[trigger] out.deep_view()[k] == seq![self.spec_pairs()[k].0]
                        + ":"@ + self.spec_pairs()[k].1,
            decreases self.mapping@.len() - i,
        {
            let ghost prev = out.deep_view();
            let mut line = String::new();
            push_char(&mut line, self.mapping[i].0);
            line.append(":");
            line.append(self.mapping[i].1.as_str());
            proof {
                assert(line@ =~= seq![self.spec_pairs()[i as int].0] + ":"@ + self.spec_pairs()[
                    i as int].1);
            }
            out.push(line);
            proof {
                assert(out.deep_view() =~~= prev.push(line@));
            }
            i = i + 1;
        }
        out
    }
}

/// A first-match scan that stops at `i` with the key found there is
/// exactly what `spec_key_at` names.
proof fn lemma_key_at_found(pairs: Seq<(char, Seq<char>)>, key: char, i: int)
    requires
        0 <= i < pairs.len(),
        pairs[i].0 == key,
        forall|k: int| 0 <= k < i ==> (#[trigger] pairs[k]).0 != key,
    ensures
        spec_key_at(pairs, key) == Some(i),
    decreases pairs.len(),
{
    if i > 0 {
        assert(forall|k: int| 0 <= k < i - 1 ==> pairs.drop_first()[k] == pairs[k + 1]);
        lemma_key_at_found(pairs.drop_first(), key, i - 1);
    }
}

/// A scan that found the key nowhere means the key is not recorded.
proof fn lemma_key_at_none(pairs: Seq<(char, Seq<char>)>, key: char)
    requires
        forall|k: int| 0 <= k < pairs.len() ==> (#[trigger] pairs[k]).0 != key,
    ensures
        spec_key_at(pairs, key) is None,
    decreases pairs.len(),
{
    if pairs.len() > 0 {
        assert(forall|k: int|
            0 <= k < pairs.drop_first().len() ==> pairs.drop_first()[k] == pairs[k + 1]);
        lemma_key_at_none(pairs.drop_first(), key);
    }
}

/// One rendered popup line: cursor to the row's first column, styles
/// reset, the key, a colon, the path padded to the popup's width.
pub open spec fn spec_render_line(xsize: int, n: int, key: char, path: Seq<char>) -> Seq<char> {
    let padding = xsize - 4;
    let padded = if path.len() >= padding {
        path
    } else {
        path + spec_spaces(padding - path.len())
    };
    "\u{1b}["@ + crate::term::spec_decimal(n) + ";"@ + crate::term::spec_decimal(1) + "H"@
        + "\u{1b}[m"@ + seq![key] + ": "@ + padded
}

/// The bookmark rows of the popup, one under the other.
pub open spec fn spec_popup_lines(
    xsize: int,
    pairs: Seq<(char, Seq<char>)>,
    ypos: int,
    from: int,
) -> Seq<char>
    decreases pairs.len() - from,
{
    if from < 0 || from >= pairs.len() {
        Seq::empty()
    } else {
        spec_render_line(xsize, ypos + 1 + from, pairs[from].0, pairs[from].1)
            + spec_popup_lines(xsize, pairs, ypos, from + 1)
    }
}

/// The popup that picks or records a bookmark.  The event loop around it
/// belongs to the runtime; the popup itself only answers key presses.
#[derive(Debug)]
pub struct BMPopup {
    bookmarks: Bookmarks,
    bookmark_path: Option<String>,
    add_mode: bool,
    xsize: u16,
}

impl BMPopup {
    pub closed spec fn spec_bookmarks(&self) -> Seq<(char, Seq<char>)> {
        self.bookmarks.spec_pairs()
    }

    pub closed spec fn spec_path(&self) -> Option<Seq<char>> {
        match self.bookmark_path {
            Some(p) => Some(p@),
            None => None,
        }
    }

    pub closed spec fn spec_add_mode(&self) -> bool {
        self.add_mode
    }

    /// An empty popup for a terminal of the given width.
    pub fn new(xsize: u16) -> (p: BMPopup)
        ensures
            p.spec_bookmarks().len() == 0,
            p.spec_path() is None,
            !p.spec_add_mode(),
    {
        BMPopup {
            bookmarks: Bookmarks::new(),
            bookmark_path: None,
            add_mode: false,
            xsize,
        }
    }

    /// Read the stored bookmark file into the popup's bookmarks.
    pub fn load_bookmarks(&mut self, lines: &Vec<String>)
        ensures
            final(self).spec_bookmarks() == spec_load(
                old(self).spec_bookmarks(),
                lines.deep_view(),
            ),
            final(self).spec_path() == old(self).spec_path(),
            final(self).spec_add_mode() == old(self).spec_add_mode(),
    {
        self.bookmarks.load_from_lines(lines);
    }

    /// The popup's bookmarks as the stored file's lines.
    pub fn save_bookmarks(&self) -> (r: Vec<String>)
        ensures
            r.deep_view().len() == self.spec_bookmarks().len(),
            forall|i: int|
                0 <= i < r.deep_view().len() ==> #[trigger] r.deep_view()[i] == seq![
                    self.spec_bookmarks()[i].0,
                ] + ":"@ + self.spec_bookmarks()[i].1,
    {
        self.bookmarks.save_to_lines()
    }

    /// Start picking: the current directory sits behind the backtick key.
    pub fn begin_pick(&mut self, cwd: String)
        ensures
            final(self).spec_path() == Some(cwd@),
            !final(self).spec_add_mode(),
            final(self).spec_bookmarks() == old(self).spec_bookmarks(),
    {
        self.add_mode = false;
        self.bookmark_path = Some(cwd);
    }

    /// Start recording the given path under the next key pressed.
    pub fn begin_add(&mut self, path: &str)
        ensures
            final(self).spec_path() == Some(path@),
            final(self).spec_add_mode(),
            final(self).spec_bookmarks() == old(self).spec_bookmarks(),
    {
        self.add_mode = true;
        self.bookmark_path = Some(path.to_owned());
    }

    /// The picked path, once the popup is done.
    pub fn take_result(&mut self) -> (r: WResult<String>)
        ensures
            (r is Ok) == (old(self).spec_path() is Some),
            r matches Ok(p) ==> old(self).spec_path() == Some(p@),
            r matches Err(e) ==> e == WError::BookmarkNotFound,
            final(self).spec_path() is None,
            final(self).spec_bookmarks() == old(self).spec_bookmarks(),
    {
        match self.bookmark_path.take() {
            Some(p) => Ok(p),
            None => Err(WError::BookmarkNotFound),
        }
    }

    /// One line of the popup: cursor to the row, styles reset, the key,
    /// then the path padded to the width.
    pub fn render_line(&self, n: u16, key: &char, path: &str) -> (r: String)
        requires
            self.spec_xsize() >= 4,
        ensures
            r@ == spec_render_line(self.spec_xsize(), n as int, *key, path@),
    {
        let mut line = goto_xy(1, n);
        line.append(reset());
        push_char(&mut line, *key);
        line.append(": ");
        let padding = (self.xsize - 4) as usize;
        let padded = pad_right(path, padding);
        line.append(padded.as_str());
        proof {
            assert(line@ =~= spec_render_line(self.spec_xsize(), n as int, *key, path@));
        }
        line
    }

    /// The whole popup: in pick mode the current directory behind the
    /// backtick on the first row, then one row per bookmark.
    pub fn get_drawlist(&self, ypos: u16) -> (r: WResult<String>)
        requires
            self.spec_xsize() >= 4,
            ypos + self.spec_bookmarks().len() + 1 <= 65535,
        ensures
            !self.spec_add_mode() && self.spec_path() is None ==> (r matches Err(e) && e
                == WError::BookmarkPathNotFound),
            self.spec_path() matches Some(cwd) ==> (!self.spec_add_mode() ==> (r matches Ok(d)
                && d@ == spec_render_line(self.spec_xsize(), ypos as int, '`', cwd)
                + spec_popup_lines(self.spec_xsize(), self.spec_bookmarks(), ypos as int, 0))),
            self.spec_add_mode() ==> (r matches Ok(d) && d@ == spec_popup_lines(
                self.spec_xsize(),
                self.spec_bookmarks(),
                ypos as int,
                0,
            )),
    {
        let mut drawlist = String::new();
        if !self.add_mode {
            let cwd = match &self.bookmark_path {
                Some(c) => c,
                None => {
                    return Err(WError::BookmarkPathNotFound);
                }
            };
            let head = self.render_line(ypos, &'`', cwd.as_str());
            drawlist.append(head.as_str());
        }
        let ghost prefix = drawlist@;
        let mut i: usize = 0;
        proof {
            assert(drawlist@ + spec_popup_lines(
                self.spec_xsize(),
                self.spec_bookmarks(),
                ypos as int,
                0,
            ) =~= prefix + spec_popup_lines(
                self.spec_xsize(),
                self.spec_bookmarks(),
                ypos as int,
                0,
            ));
        }
        while i < self.bookmarks.mapping.len()
            invariant
                0 <= i <= self.bookmarks.mapping@.len(),
                self.spec_xsize() >= 4,
                ypos + self.spec_bookmarks().len() + 1 <= 65535,
                self.spec_bookmarks().len() == self.bookmarks.mapping@.len(),
                drawlist@ + spec_popup_lines(
                    self.spec_xsize(),
                    self.spec_bookmarks(),
                    ypos as int,
                    i as int,
                ) == prefix + spec_popup_lines(
                    self.spec_xsize(),
                    self.spec_bookmarks(),
                    ypos as int,
                    0,
                ),
            decreases self.bookmarks.mapping@.len() - i,
        {
            let key: char = self.bookmarks.mapping[i].0;
            let row: u16 = ypos + (i as u16) + 1;
            let line = self.render_line(row, &key, self.bookmarks.mapping[i].1.as_str());
            proof {
                assert(self.spec_bookmarks()[i as int] == (
                    self.bookmarks.mapping@[i as int].0,
                    self.bookmarks.mapping@[i as int].1@,
                ));
            }
            drawlist.append(line.as_str());
            i = i + 1;
        }
        Ok(drawlist)
    }

    pub closed spec fn spec_xsize(&self) -> int {
        self.xsize as int
    }

    /// Answer one key press.
    ///
    /// Escape abandons the popup; the backtick picks the current
    /// directory; any other character records the pending path in add
    /// mode and otherwise picks that key's bookmark, if it has one; a
    /// key pressed with alt removes that key's bookmark.  `PopupFinished`
    /// and `WidgetResizedError` are how a popup hands control back, not
    /// failures.
    pub fn on_key(&mut self, key: Key) -> (r: WResult<()>)
        ensures
            key == Key::Ctrl('c') || key == Key::Esc ==> (r matches Err(e)
                && e == WError::PopupFinished
                && final(self).spec_path() is None
                && final(self).spec_bookmarks() == old(self).spec_bookmarks()),
            key == Key::Char('`') ==> (r matches Err(e) && e == WError::PopupFinished
                && *final(self) == *old(self)),
            key matches Key::Char(c) ==> ((c != '`' && old(self).spec_add_mode())
                ==> (match old(self).spec_path() {
                Some(p) => r matches Err(e) && e == WError::PopupFinished
                    && final(self).spec_bookmarks() == spec_put(old(self).spec_bookmarks(), c, p)
                    && !final(self).spec_add_mode() && final(self).spec_path() is None,
                None => r matches Err(e) && e == WError::BookmarkPathNotFound,
            })),
            key matches Key::Char(c) ==> ((c != '`' && !old(self).spec_add_mode())
                ==> (match spec_key_at(old(self).spec_bookmarks(), c) {
                Some(i) => r matches Err(e) && e == WError::PopupFinished
                    && final(self).spec_path() == Some(old(self).spec_bookmarks()[i].1)
                    && final(self).spec_bookmarks() == old(self).spec_bookmarks(),
                None => r is Ok && *final(self) == *old(self),
            })),
            key matches Key::Alt(c) ==> (r matches Err(e) && e == WError::WidgetResizedError
                && final(self).spec_path() == old(self).spec_path()
                && (match spec_key_at(old(self).spec_bookmarks(), c) {
                Some(i) => final(self).spec_bookmarks() == old(self).spec_bookmarks().remove(i),
                None => final(self).spec_bookmarks() == old(self).spec_bookmarks(),
            })),
            (key == Key::Backspace || key == Key::Other || (key matches Key::Ctrl(c) && c != 'c'))
                ==> (r is Ok && *final(self) == *old(self)),
    {
        match key {
            Key::Ctrl('c') | Key::Esc => {
                self.bookmark_path = None;
                Err(WError::PopupFinished)
            }
            Key::Char('`') => Err(WError::PopupFinished),
            Key::Char(c) => {
                if self.add_mode {
                    let path = match self.bookmark_path.take() {
                        Some(p) => p,
                        None => {
                            return Err(WError::BookmarkPathNotFound);
                        }
                    };
                    let _ = self.bookmarks.add(c, path.as_str());
                    self.add_mode = false;
                    return Err(WError::PopupFinished);
                }
                match self.bookmarks.get(c) {
                    Ok(path) => {
                        let owned = path.clone();
                        self.bookmark_path = Some(owned);
                        Err(WError::PopupFinished)
                    }
                    Err(_) => Ok(()),
                }
            }
            Key::Alt(c) => {
                self.bookmarks.remove(c);
                Err(WError::WidgetResizedError)
            }
            _ => Ok(()),
        }
    }
}

} // verus!
