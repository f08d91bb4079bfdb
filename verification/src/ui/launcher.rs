use vstd::prelude::*;

verus! {

/// What `str::to_lowercase` from std makes of a string: the lowercase
/// mapping of every character, as the Unicode tables define it.
pub uninterp spec fn lowercase(s: Seq<char>) -> Seq<char>;

/// Lower-cases `s` with `str::to_lowercase` (std). The result is the
/// function `lowercase` of the characters of `s`; the Unicode mapping
/// itself, which takes tables to state, is not written out.
#[verifier::external_body]
fn to_lowercase(s: &str) -> (r: String)
    ensures
        r@ == lowercase(s@),
{
    s.to_lowercase()
}

/// Appends `c` with `String::push` (std), which adds the character at the
/// end of the string.
#[verifier::external_body]
fn push_char(s: &mut String, c: char)
    ensures
        final(s)@ == old(s)@.push(c),
{
    s.push(c)
}

/// Removes the last character with `String::pop` (std), which hands it back,
/// or hands back `None` and leaves the string as it is when it is empty.
#[verifier::external_body]
fn pop_char(s: &mut String) -> (r: Option<char>)
    ensures
        match r {
            Some(c) => old(s)@.len() > 0 && c == old(s)@.last() && final(s)@ == old(s)@.drop_last(),
            None => old(s)@.len() == 0 && final(s)@ == old(s)@,
        },
{
    s.pop()
}

/// The characters of `s`, in order.
fn chars_of(s: &str) -> (v: Vec<char>)
    ensures
        v@ == s@,
{
    broadcast use vstd::string::group_string_axioms;

    let mut v: Vec<char> = Vec::new();
    for c in it: s.chars()
        invariant
            v@ == it.seq().take(it.index() as int),
    {
        v.push(c);
    }
    assert(v@ =~= s@);
    v
}


/// `needle` occurs in `hay` as a run of consecutive characters.
pub open spec fn occurs_in(needle: Seq<char>, hay: Seq<char>) -> bool {
    exists|i: int|
        0 <= i && i + needle.len() <= hay.len() && #[trigger] hay.subrange(i, i + needle.len())
            == needle
}

/// Each character of `needle` equals the character of `hay` at the same
/// distance from index `i`.
pub open spec fn matches_at(needle: Seq<char>, hay: Seq<char>, i: int) -> bool {
    0 <= i && i + needle.len() <= hay.len() && forall|t: int|
        0 <= t < needle.len() ==> hay[i + t] == #[trigger] needle[t]
}

/// `needle` occurs in `hay` exactly when some start in `hay` matches it
/// character by character.
pub proof fn lemma_occurs_pointwise(needle: Seq<char>, hay: Seq<char>)
    ensures
        occurs_in(needle, hay) <==> exists|i: int| #[trigger] matches_at(needle, hay, i),
{
    if occurs_in(needle, hay) {
        let i = choose|i: int|
            0 <= i && i + needle.len() <= hay.len() && #[trigger] hay.subrange(i, i + needle.len())
                == needle;
        assert forall|t: int| 0 <= t < needle.len() implies hay[i + t] == #[trigger] needle[t] by {
            assert(hay.subrange(i, i + needle.len())[t] == hay[i + t]);
        }
        assert(matches_at(needle, hay, i));
    }
    if exists|i: int| #[trigger] matches_at(needle, hay, i) {
        let i = choose|i: int| #[trigger] matches_at(needle, hay, i);
        assert(hay.subrange(i, i + needle.len()) =~= needle);
    }
}

/// A search occurs in every text that holds it after some prefix and before
/// some suffix, so a match in the middle of a name counts as well as one at
/// its start; it never occurs in a text shorter than itself, and the empty
/// search occurs in every text.
pub proof fn lemma_occurs_inside(needle: Seq<char>, pre: Seq<char>, post: Seq<char>, hay: Seq<char>)
    ensures
        occurs_in(needle, pre + needle + post),
        needle.len() > hay.len() ==> !occurs_in(needle, hay),
        occurs_in(Seq::<char>::empty(), hay),
{
    let h = pre + needle + post;
    assert(h.subrange(pre.len() as int, (pre.len() + needle.len()) as int) =~= needle);
    let e = Seq::<char>::empty();
    assert(hay.subrange(0, 0int + e.len()) =~= e);
}

/// Whether `needle` occurs in `hay`, by trying every start.
fn occurs(needle: &Vec<char>, hay: &Vec<char>) -> (b: bool)
    ensures
        b == occurs_in(needle@, hay@),
        b <==> exists|i: int| #[trigger] matches_at(needle@, hay@, i),
{
    proof {
        lemma_occurs_pointwise(needle@, hay@);
    }
    let n = needle.len();
    let m = hay.len();
    if n > m {
        return false;
    }
    let mut i: usize = 0;
    while i <= m - n
        invariant
            n == needle@.len(),
            m == hay@.len(),
            n <= m,
            i <= m - n + 1,
            forall|j: int| 0 <= j < i ==> #[trigger] hay@.subrange(j, j + n) != needle@,
        decreases m - n + 1 - i,
    {
        let mut k: usize = 0;
        let mut same = true;
        while k < n && same
            invariant
                n == needle@.len(),
                m == hay@.len(),
                i + n <= m,
                k <= n,
                same ==> forall|t: int| 0 <= t < k ==> hay@[i + t] == needle@[t],
                !same ==> hay@[i + k - 1] != needle@[k - 1] && k >= 1,
            decreases n - k + (if same { 1int } else { 0 }),
        {
            if hay[i + k] != needle[k] {
                same = false;
            }
            k = k + 1;
        }
        if same {
            assert(hay@.subrange(i as int, i + n) =~= needle@);
            assert(matches_at(needle@, hay@, i as int));
            return true;
        }
        assert(hay@.subrange(i as int, i + n)[k - 1] != needle@[k - 1]);
        i = i + 1;
    }
    false
}

/// A control character (general category Cc): U+0000 to U+001F and U+007F
/// to U+009F.
pub open spec fn is_control(c: char) -> bool {
    (c as u32) <= 0x1f || (0x7f <= (c as u32) && (c as u32) <= 0x9f)
}

fn is_control_char(c: char) -> (b: bool)
    ensures
        b == is_control(c),
{
    let v = c as u32;
    v <= 0x1f || (0x7f <= v && v <= 0x9f)
}

/// Whether a launcher entry is a game or a technical example.
#[derive(Clone, Copy, Debug, PartialEq, Eq, Structural)]
pub enum LauncherItemKind {
    Game,
    Example,
}

impl LauncherItemKind {
    /// The tag shown beside an entry.
    pub fn badge(&self) -> (tag: &'static str)
        ensures
            tag@ == (match self {
                LauncherItemKind::Game => "[Game]"@,
                LauncherItemKind::Example => "[Example]"@,
            }),
    {
        match self {
            LauncherItemKind::Game => "[Game]",
            LauncherItemKind::Example => "[Example]",
        }
    }
}

/// An entry of the launcher menu.
pub struct LauncherItem {
    pub name: String,
    pub description: String,
    pub kind: LauncherItemKind,
}

/// The keys the launcher reacts to; every other key is `Other`.
#[derive(Clone, Copy, Debug, PartialEq, Eq, Structural)]
pub enum LauncherKey {
    Enter,
    ArrowUp,
    ArrowDown,
    Backspace,
    Escape,
    Other,
}

/// An entry matches a search when the search is empty, or when the lowercase
/// search occurs in the lowercase name or the lowercase description.
pub open spec fn item_matches(item: LauncherItem, query: Seq<char>) -> bool {
    query.len() == 0 || occurs_in(lowercase(query), lowercase(item.name@)) || occurs_in(
        lowercase(query),
        lowercase(item.description@),
    )
}

/// The indices among the first `n` entries that match `query`, in order.
pub open spec fn matching_indices(items: Seq<LauncherItem>, query: Seq<char>, n: int) -> Seq<
    usize,
>
    decreases n,
{
    if n <= 0 {
        Seq::empty()
    } else {
        let before = matching_indices(items, query, n - 1);
        if item_matches(items[n - 1], query) {
            before.push((n - 1) as usize)
        } else {
            before
        }
    }
}

/// The entries of the menu: name, description and kind of each, in order.
pub open spec fn catalog() -> Seq<(Seq<char>, Seq<char>, LauncherItemKind)> {
    seq![
        ("Snake Game"@, "Classic grid-based snake action."@, LauncherItemKind::Game),
        ("Breakouts"@, "Destroy bricks with a bouncing ball."@, LauncherItemKind::Game),
        ("Ping Pong"@, "Fast-paced table tennis simulator."@, LauncherItemKind::Game),
        ("Linear Algebra Demo"@, "3D rotating cube and matrix math."@, LauncherItemKind::Example),
        ("Key Press History"@, "Visualizer for keyboard input events."@, LauncherItemKind::Example),
        ("Trig Wave Visualizer"@, "Procedural sine wave animation."@, LauncherItemKind::Example),
        ("Particle Flow Field"@, "Vector field integration visualizer."@, LauncherItemKind::Example),
        ("Bézier Curve Editor"@, "Recursive interpolation demo."@, LauncherItemKind::Example),
        ("Asteroids"@, "Space combat and physics demo."@, LauncherItemKind::Game),
        ("Flappy Bird"@, "Gravity and impulse physics example."@, LauncherItemKind::Game),
        ("Space Invaders"@, "Classic alien invasion shooter."@, LauncherItemKind::Game),
        ("Tetris"@, "Classic block-fitting puzzle game."@, LauncherItemKind::Game),
        ("Pacman"@, "Maze navigation and AI demo."@, LauncherItemKind::Game),
    ]
}

/// The name, description and kind of an entry.
pub open spec fn entry_view(item: LauncherItem) -> (Seq<char>, Seq<char>, LauncherItemKind) {
    (item.name@, item.description@, item.kind)
}

fn entry(name: &str, description: &str, kind: LauncherItemKind) -> (item: LauncherItem)
    ensures
        entry_view(item) == (name@, description@, kind),
{
    broadcast use vstd::string::group_string_axioms;

    LauncherItem { name: name.to_string(), description: description.to_string(), kind }
}

/// The launcher menu: its entries, the search typed so far, the selected
/// row of the filtered list, the first row shown, and how many rows fit.
pub struct LauncherState {
    pub items: Vec<LauncherItem>,
    pub search_text: String,
    pub selected_index: usize,
    pub scroll_offset: usize,
    pub current_visible_count: usize,
}

impl LauncherState {
    /// The menu with every entry, an empty search, the first row selected
    /// and eight rows shown.
    pub fn new() -> (state: Self)
        ensures
            state.items@.map_values(|it: LauncherItem| entry_view(it)) == catalog(),
            state.search_text@.len() == 0,
            state.selected_index == 0,
            state.scroll_offset == 0,
            state.current_visible_count == 8,
    {
        let mut items: Vec<LauncherItem> = Vec::new();
        items.push(entry("Snake Game", "Classic grid-based snake action.", LauncherItemKind::Game));
        items.push(entry("Breakouts", "Destroy bricks with a bouncing ball.", LauncherItemKind::Game));
        items.push(entry("Ping Pong", "Fast-paced table tennis simulator.", LauncherItemKind::Game));
        items.push(entry("Linear Algebra Demo", "3D rotating cube and matrix math.", LauncherItemKind::Example));
        items.push(entry("Key Press History", "Visualizer for keyboard input events.", LauncherItemKind::Example));
        items.push(entry("Trig Wave Visualizer", "Procedural sine wave animation.", LauncherItemKind::Example));
        items.push(entry("Particle Flow Field", "Vector field integration visualizer.", LauncherItemKind::Example));
        items.push(entry("Bézier Curve Editor", "Recursive interpolation demo.", LauncherItemKind::Example));
        items.push(entry("Asteroids", "Space combat and physics demo.", LauncherItemKind::Game));
        items.push(entry("Flappy Bird", "Gravity and impulse physics example.", LauncherItemKind::Game));
        items.push(entry("Space Invaders", "Classic alien invasion shooter.", LauncherItemKind::Game));
        items.push(entry("Tetris", "Classic block-fitting puzzle game.", LauncherItemKind::Game));
        items.push(entry("Pacman", "Maze navigation and AI demo.", LauncherItemKind::Game));
        let state = Self {
            items,
            search_text: String::new(),
            selected_index: 0,
            scroll_offset: 0,
            current_visible_count: 8,
        };
        assert(state.items@.map_values(|it: LauncherItem| entry_view(it)) =~= catalog());
        state
    }

    /// The indices of the entries that match the search, in menu order.
    pub open spec fn filtered(&self) -> Seq<usize> {
        matching_indices(self.items@, self.search_text@, self.items@.len() as int)
    }

    fn item_matches_exec(item: &LauncherItem, query: &Vec<char>, raw_empty: bool) -> (b: bool)
        requires
            raw_empty ==> query@.len() == 0,
        ensures
            raw_empty ==> b,
            !raw_empty ==> b == (occurs_in(query@, lowercase(item.name@)) || occurs_in(
                query@,
                lowercase(item.description@),
            )),
    {
        if raw_empty {
            return true;
        }
        let name = chars_of(to_lowercase(item.name.as_str()).as_str());
        if occurs(query, &name) {
            return true;
        }
        let desc = chars_of(to_lowercase(item.description.as_str()).as_str());
        occurs(query, &desc)
    }

    /// The entries that match the search, each with its index in the menu.
    pub fn filtered_items(&self) -> (res: Vec<(usize, &LauncherItem)>)
        ensures
            res@.len() == self.filtered().len(),
            forall|j: int|
                0 <= j < res@.len() ==> (#[trigger] res@[j]).0 == self.filtered()[j]
                    && res@[j].0 < self.items@.len() && res@[j].1 == &self.items@[res@[j].0 as int],
    {
        let raw_empty = self.search_text.as_str().is_empty();
        let query = if raw_empty {
            Vec::new()
        } else {
            chars_of(to_lowercase(self.search_text.as_str()).as_str())
        };
        let ghost q = self.search_text@;
        let mut res: Vec<(usize, &LauncherItem)> = Vec::new();
        let n = self.items.len();
        let mut i: usize = 0;
        while i < n
            invariant
                n == self.items@.len(),
                i <= n,
                q == self.search_text@,
                raw_empty == (q.len() == 0),
                !raw_empty ==> query@ == lowercase(q),
                raw_empty ==> query@.len() == 0,
                res@.len() == matching_indices(self.items@, q, i as int).len(),
                forall|j: int|
                    0 <= j < res@.len() ==> (#[trigger] res@[j]).0 == matching_indices(
                        self.items@,
                        q,
                        i as int,
                    )[j] && res@[j].0 < i && res@[j].1 == &self.items@[res@[j].0 as int],
            decreases n - i,
        {
            let item = &self.items[i];
            if Self::item_matches_exec(item, &query, raw_empty) {
                res.push((i, item));
            }
            i = i + 1;
        }
        res
    }

    /// The selected row after moving by the sign of `delta`: down one row
    /// but no further than the last, up one row but no further than the
    /// first.
    pub open spec fn selection_after(&self, delta: i32) -> int {
        let n = self.filtered().len() as int;
        let s = self.selected_index as int;
        if delta > 0 {
            if s + 1 <= n - 1 {
                s + 1
            } else {
                n - 1
            }
        } else if delta < 0 {
            if s == 0 {
                0
            } else {
                s - 1
            }
        } else {
            s
        }
    }

    /// The first row shown once row `sel` is selected: unchanged when `sel`
    /// is in view, else the least scroll that brings it into view.
    pub open spec fn scroll_for(&self, sel: int) -> int {
        let o = self.scroll_offset as int;
        let v = self.current_visible_count as int;
        if sel < o {
            sel
        } else if sel >= o + v {
            sel - v + 1
        } else {
            o
        }
    }

    /// Moving by `delta` stays within `usize`.
    pub open spec fn can_move(&self, delta: i32) -> bool {
        self.filtered().len() == 0 || {
            &&& delta > 0 ==> self.selected_index < usize::MAX
            &&& self.selection_after(delta) >= self.scroll_offset ==> self.scroll_offset
                + self.current_visible_count <= usize::MAX
            &&& self.selection_after(delta) >= self.scroll_offset + self.current_visible_count
                ==> self.selection_after(delta) - self.current_visible_count + 1 <= usize::MAX
        }
    }

    /// `post` is `pre` after a move of the selection by the sign of `delta`.
    pub open spec fn moved(pre: &Self, post: &Self, delta: i32) -> bool {
        &&& post.items@ == pre.items@
        &&& post.search_text@ == pre.search_text@
        &&& post.current_visible_count == pre.current_visible_count
        &&& if pre.filtered().len() == 0 {
            &&& post.selected_index == pre.selected_index
            &&& post.scroll_offset == pre.scroll_offset
        } else {
            &&& post.selected_index == pre.selection_after(delta)
            &&& post.scroll_offset == pre.scroll_for(pre.selection_after(delta))
        }
    }

    /// `post` is `pre` with the search changed to `text` and the selection
    /// and scroll back at the top.
    pub open spec fn searched(pre: &Self, post: &Self, text: Seq<char>) -> bool {
        &&& post.items@ == pre.items@
        &&& post.search_text@ == text
        &&& post.selected_index == 0
        &&& post.scroll_offset == 0
        &&& post.current_visible_count == pre.current_visible_count
    }

    /// The menu index of the entry on filtered row `row`, where there is one.
    pub open spec fn entry_at(&self, row: int) -> Option<usize> {
        if 0 <= row < self.filtered().len() {
            Some(self.filtered()[row])
        } else {
            None
        }
    }

    /// Whether `move_selection(delta)` may be called.
    pub fn can_move_selection(&self, delta: i32) -> (b: bool)
        ensures
            b == self.can_move(delta),
    {
        let n = self.filtered_items().len();
        if n == 0 {
            return true;
        }
        if delta > 0 && self.selected_index == usize::MAX {
            return false;
        }
        let max = n - 1;
        let sel = if delta > 0 {
            let next = self.selected_index + 1;
            if next <= max {
                next
            } else {
                max
            }
        } else if delta < 0 {
            if self.selected_index == 0 {
                0
            } else {
                self.selected_index - 1
            }
        } else {
            self.selected_index
        };
        if sel >= self.scroll_offset {
            if self.scroll_offset > usize::MAX - self.current_visible_count {
                return false;
            }
            if sel >= self.scroll_offset + self.current_visible_count && sel
                - self.current_visible_count == usize::MAX {
                return false;
            }
        }
        true
    }

    /// Moves the selection one row down (`delta > 0`) or up (`delta < 0`)
    /// within the filtered list, and scrolls just enough to keep it in view.
    pub fn move_selection(&mut self, delta: i32)
        requires
            old(self).can_move(delta),
        ensures
            Self::moved(&*old(self), &*final(self), delta),
            old(self).filtered().len() > 0 && final(self).current_visible_count >= 1
                ==> final(self).scroll_offset <= final(self).selected_index
                < final(self).scroll_offset + final(self).current_visible_count,
            old(self).filtered().len() > 0 && old(self).selected_index < old(self).filtered().len()
                ==> final(self).selected_index < final(self).filtered().len(),
            old(self).filtered().len() == 0 ==> final(self).selected_index == old(
                self,
            ).selected_index && final(self).scroll_offset == old(self).scroll_offset,
            old(self).filtered().len() > 0 ==> {
                let n = old(self).filtered().len() as int;
                let s = old(self).selected_index as int;
                let t = final(self).selected_index as int;
                let o = old(self).scroll_offset as int;
                let v = old(self).current_visible_count as int;
                &&& delta > 0 && s + 1 < n ==> t == s + 1
                &&& delta > 0 && s + 1 >= n ==> t == n - 1
                &&& delta < 0 && s > 0 ==> t == s - 1
                &&& delta < 0 && s == 0 ==> t == 0
                &&& delta == 0 ==> t == s
                &&& t < o ==> final(self).scroll_offset == t
                &&& t >= o + v ==> final(self).scroll_offset == t - v + 1
                &&& o <= t < o + v ==> final(self).scroll_offset == o
            },
            final(self).items@ == old(self).items@,
            final(self).search_text@ == old(self).search_text@,
            final(self).current_visible_count == old(self).current_visible_count,
    {
        let n = self.filtered_items().len();
        if n == 0 {
            return;
        }
        let max = n - 1;
        if delta > 0 {
            let next = self.selected_index + 1;
            self.selected_index = if next <= max {
                next
            } else {
                max
            };
        } else if delta < 0 {
            self.selected_index = if self.selected_index == 0 {
                0
            } else {
                self.selected_index - 1
            };
        }
        if self.selected_index < self.scroll_offset {
            self.scroll_offset = self.selected_index;
        } else if self.selected_index >= self.scroll_offset + self.current_visible_count {
            self.scroll_offset = self.selected_index - self.current_visible_count + 1;
        }
    }

    /// The last first-row that still fills a page: the number of filtered
    /// rows less the rows shown, or zero.
    pub open spec fn last_page_start(&self) -> int {
        let n = self.filtered().len() as int;
        if n > self.current_visible_count {
            n - self.current_visible_count
        } else {
            0
        }
    }

    /// The first row shown after the wheel moves by the sign of `delta_y`.
    pub open spec fn scroll_after_wheel(&self, delta_y: i32) -> int {
        let o = self.scroll_offset as int;
        if self.filtered().len() == 0 || delta_y == 0 {
            o
        } else if delta_y > 0 {
            if o == 0 {
                0
            } else {
                o - 1
            }
        } else if o < self.last_page_start() {
            o + 1
        } else {
            o
        }
    }

    /// Scrolls the list by one row: up for a positive `delta_y`, down for a
    /// negative one but never past the last page; the signs stand for the
    /// wheel's movement. Nothing happens when no entry matches.
    pub fn handle_mouse_wheel(&mut self, _delta_x: i32, delta_y: i32)
        ensures
            final(self).items@ == old(self).items@,
            final(self).search_text@ == old(self).search_text@,
            final(self).selected_index == old(self).selected_index,
            final(self).current_visible_count == old(self).current_visible_count,
            final(self).scroll_offset == old(self).scroll_after_wheel(delta_y),
            ({
                let n = old(self).filtered().len() as int;
                let v = old(self).current_visible_count as int;
                let last = if n > v {
                    n - v
                } else {
                    0
                };
                &&& old(self).scroll_offset <= last ==> final(self).scroll_offset <= last
                &&& final(self).scroll_offset <= old(self).scroll_offset + 1
                &&& final(self).scroll_offset + 1 >= old(self).scroll_offset
                &&& n == 0 || delta_y == 0 ==> final(self).scroll_offset == old(self).scroll_offset
                &&& n > 0 && delta_y > 0 && old(self).scroll_offset > 0 ==> final(self).scroll_offset
                    == old(self).scroll_offset - 1
                &&& n > 0 && delta_y < 0 && old(self).scroll_offset < last ==> final(self).scroll_offset
                    == old(self).scroll_offset + 1
                &&& delta_y < 0 && old(self).scroll_offset >= last ==> final(self).scroll_offset
                    == old(self).scroll_offset
            }),
    {
        let n = self.filtered_items().len();
        if n == 0 {
            return;
        }
        if delta_y > 0 {
            if self.scroll_offset > 0 {
                self.scroll_offset = self.scroll_offset - 1;
            }
        } else if delta_y < 0 {
            let max_offset = if n > self.current_visible_count {
                n - self.current_visible_count
            } else {
                0
            };
            if self.scroll_offset < max_offset {
                self.scroll_offset = self.scroll_offset + 1;
            }
        }
    }

    /// Adds a typed character to the search, unless it is a control
    /// character, and goes back to the top of the list.
    pub fn input_char(&mut self, c: char)
        ensures
            is_control(c) ==> *final(self) == *old(self),
            !is_control(c) ==> Self::searched(&*old(self), &*final(self), old(self).search_text@.push(c)),
            (c as u32) >= 0x20 && ((c as u32) < 0x7f || (c as u32) > 0x9f) ==> {
                &&& final(self).search_text@ == old(self).search_text@.push(c)
                &&& final(self).selected_index == 0
                &&& final(self).scroll_offset == 0
            },
            (c as u32) < 0x20 || (0x7f <= (c as u32) && (c as u32) <= 0x9f) ==> {
                &&& final(self).search_text@ == old(self).search_text@
                &&& final(self).selected_index == old(self).selected_index
                &&& final(self).scroll_offset == old(self).scroll_offset
            },
    {
        if is_control_char(c) {
            return;
        }
        push_char(&mut self.search_text, c);
        self.selected_index = 0;
        self.scroll_offset = 0;
    }

    /// Deletes the last character of the search and goes back to the top of
    /// the list.
    pub fn backspace(&mut self)
        ensures
            Self::searched(
                &*old(self),
                &*final(self),
                if old(self).search_text@.len() == 0 {
                    old(self).search_text@
                } else {
                    old(self).search_text@.drop_last()
                },
            ),
            final(self).selected_index == 0,
            final(self).scroll_offset == 0,
            final(self).items@ == old(self).items@,
            final(self).current_visible_count == old(self).current_visible_count,
            old(self).search_text@.len() > 0 ==> final(self).search_text@.len()
                == old(self).search_text@.len() - 1 && final(self).search_text@
                == old(self).search_text@.subrange(0, old(self).search_text@.len() - 1),
            old(self).search_text@.len() == 0 ==> final(self).search_text@.len() == 0,
    {
        let _ = pop_char(&mut self.search_text);
        self.selected_index = 0;
        self.scroll_offset = 0;
    }

    /// Reacts to a key. Only presses count. Enter hands back the menu index
    /// of the selected entry, to be launched; the arrows move the selection;
    /// Backspace deletes the last character of the search; Escape clears the
    /// search.
    pub fn handle_input(&mut self, key: LauncherKey, pressed: bool) -> (launch: Option<usize>)
        requires
            pressed && key == LauncherKey::ArrowUp ==> old(self).can_move(-1i32),
            pressed && key == LauncherKey::ArrowDown ==> old(self).can_move(1i32),
        ensures
            !pressed || key == LauncherKey::Enter || key == LauncherKey::Other ==> *final(self)
                == *old(self),
            launch == (if pressed && key == LauncherKey::Enter {
                old(self).entry_at(old(self).selected_index as int)
            } else {
                None
            }),
            pressed && key == LauncherKey::ArrowUp ==> Self::moved(&*old(self), &*final(self), -1i32),
            pressed && key == LauncherKey::ArrowDown ==> Self::moved(&*old(self), &*final(self), 1i32),
            pressed && key == LauncherKey::Backspace ==> Self::searched(
                &*old(self),
                &*final(self),
                if old(self).search_text@.len() == 0 {
                    old(self).search_text@
                } else {
                    old(self).search_text@.drop_last()
                },
            ),
            pressed && key == LauncherKey::Escape ==> Self::searched(
                &*old(self),
                &*final(self),
                Seq::empty(),
            ),
            pressed && key == LauncherKey::Escape ==> final(self).search_text@.len() == 0
                && final(self).selected_index == 0 && final(self).scroll_offset == 0,
            pressed && key == LauncherKey::Enter && old(self).selected_index < old(
                self,
            ).filtered().len() ==> launch == Some(old(self).filtered()[old(self).selected_index as int]),
            launch matches Some(e) ==> pressed && key == LauncherKey::Enter && old(self).selected_index
                < old(self).filtered().len() && e == old(self).filtered()[old(self).selected_index as int],
    {
        if !pressed {
            return None;
        }
        match key {
            LauncherKey::Enter => {
                let filtered = self.filtered_items();
                if self.selected_index < filtered.len() {
                    return Some(filtered[self.selected_index].0);
                }
            },
            LauncherKey::ArrowUp => {
                self.move_selection(-1);
            },
            LauncherKey::ArrowDown => {
                self.move_selection(1);
            },
            LauncherKey::Backspace => {
                self.backspace();
            },
            LauncherKey::Escape => {
                self.search_text = String::new();
                self.selected_index = 0;
                self.scroll_offset = 0;
            },
            LauncherKey::Other => {},
        }
        None
    }

    /// A click on filtered row `hit` (found from the pointer's position)
    /// selects that row and hands back the menu index of its entry, to be
    /// launched; a click on no row does nothing.
    pub fn handle_mouse_click(&mut self, hit: Option<usize>) -> (launch: Option<usize>)
        ensures
            hit is None ==> *final(self) == *old(self) && launch is None,
            hit matches Some(i) ==> {
                &&& final(self).selected_index == i
                &&& final(self).items@ == old(self).items@
                &&& final(self).search_text@ == old(self).search_text@
                &&& final(self).scroll_offset == old(self).scroll_offset
                &&& final(self).current_visible_count == old(self).current_visible_count
                &&& launch == old(self).entry_at(i as int)
                &&& i < old(self).filtered().len() ==> launch == Some(old(self).filtered()[i as int])
                &&& i >= old(self).filtered().len() ==> launch is None
            },
    {
        match hit {
            Some(i) => {
                self.selected_index = i;
                let filtered = self.filtered_items();
                if i < filtered.len() {
                    Some(filtered[i].0)
                } else {
                    None
                }
            },
            None => None,
        }
    }

    /// The filtered row on visible line `line`, where there is one.
    pub open spec fn line_row(&self, line: int) -> Option<usize> {
        if 0 <= line < self.current_visible_count && self.scroll_offset + line
            < self.filtered().len() {
            Some((self.scroll_offset + line) as usize)
        } else {
            None
        }
    }

    /// The filtered row shown on visible line `line`, where there is one.
    pub fn row_at_line(&self, line: usize) -> (row: Option<usize>)
        requires
            self.scroll_offset + self.current_visible_count <= usize::MAX,
        ensures
            row == self.line_row(line as int),
            row matches Some(r) ==> r < self.filtered().len() && r == self.scroll_offset + line
                && line < self.current_visible_count,
            row is None ==> line >= self.current_visible_count || self.scroll_offset + line
                >= self.filtered().len(),
    {
        if line >= self.current_visible_count {
            return None;
        }
        let n = self.filtered_items().len();
        if self.scroll_offset + line < n {
            Some(self.scroll_offset + line)
        } else {
            None
        }
    }

    /// The filtered rows shown, top first: from the first row shown, as
    /// many as fit, and no further than the last filtered row.
    pub open spec fn shown_rows(&self) -> Seq<usize> {
        let n = self.filtered().len() as int;
        let o = self.scroll_offset as int;
        let end = if o + self.current_visible_count < n {
            o + self.current_visible_count
        } else {
            n
        };
        Seq::new(if end > o { (end - o) as nat } else { 0 }, |i: int| (o + i) as usize)
    }

    /// The filtered rows to draw, top first.
    pub fn visible_rows(&self) -> (rows: Vec<usize>)
        ensures
            rows@ == self.shown_rows(),
            rows@.len() <= self.current_visible_count,
            forall|i: int|
                0 <= i < rows@.len() ==> #[trigger] rows@[i] < self.filtered().len() && rows@[i]
                    == self.scroll_offset + i,
            forall|r: usize|
                self.scroll_offset <= r < self.filtered().len() && r < self.scroll_offset
                    + self.current_visible_count ==> #[trigger] rows@.contains(r),
    {
        let n = self.filtered_items().len();
        let mut rows: Vec<usize> = Vec::new();
        let mut i = self.scroll_offset;
        let mut count: usize = 0;
        while i < n && count < self.current_visible_count
            invariant
                n == self.filtered().len(),
                i == self.scroll_offset + count,
                count <= self.current_visible_count,
                count == 0 || i <= n,
                rows@ == Seq::new(count as nat, |j: int| (self.scroll_offset + j) as usize),
            decreases n - i,
        {
            rows.push(i);
            assert(rows@ =~= Seq::new((count + 1) as nat, |j: int| (self.scroll_offset + j) as usize));
            i = i + 1;
            count = count + 1;
        }
        assert(rows@ =~= self.shown_rows());
        assert forall|r: usize|
            self.scroll_offset <= r < self.filtered().len() && r < self.scroll_offset
                + self.current_visible_count implies #[trigger] rows@.contains(r) by {
            assert(rows@[r - self.scroll_offset] == r);
        }
        rows
    }

    /// Sets how many rows are shown: the number that fit, but at least one.
    pub fn set_visible_count(&mut self, fitting: usize)
        ensures
            final(self).current_visible_count == if fitting >= 1 {
                fitting
            } else {
                1
            },
            final(self).items@ == old(self).items@,
            final(self).search_text@ == old(self).search_text@,
            final(self).selected_index == old(self).selected_index,
            final(self).scroll_offset == old(self).scroll_offset,
    {
        self.current_visible_count = if fitting >= 1 {
            fitting
        } else {
            1
        };
    }
}


/// The filtered list holds exactly the matching entries among the first `n`,
/// each once and in menu order.
pub proof fn lemma_matching_exact(items: Seq<LauncherItem>, query: Seq<char>, n: int)
    requires
        0 <= n <= items.len(),
        items.len() <= usize::MAX,
    ensures
        ({
            let f = matching_indices(items, query, n);
            &&& f.len() <= n
            &&& forall|j: int, k: int| 0 <= j < k < f.len() ==> f[j] < f[k]
            &&& forall|j: int|
                0 <= j < f.len() ==> f[j] < n && item_matches(items[f[j] as int], query)
            &&& forall|i: int|
                0 <= i < n && item_matches(items[i], query) ==> f.contains(i as usize)
        }),
    decreases n,
{
    if n > 0 {
        lemma_matching_exact(items, query, n - 1);
        let before = matching_indices(items, query, n - 1);
        let f = matching_indices(items, query, n);
        if item_matches(items[n - 1], query) {
            assert(f[before.len() as int] == (n - 1) as usize);
            assert forall|i: int| 0 <= i < n && item_matches(items[i], query) implies f.contains(
                i as usize,
            ) by {
                if i < n - 1 {
                    let j = choose|j: int| 0 <= j < before.len() && before[j] == i as usize;
                    assert(f[j] == i as usize);
                }
            }
        }
    }
}

/// What the search keeps: with an empty search every entry; otherwise an
/// entry whose lowercase name or lowercase description holds the lowercase
/// search, and no other.
pub proof fn lemma_filter_meaning(state: &LauncherState, i: int)
    requires
        state.items@.len() <= usize::MAX,
        0 <= i < state.items@.len(),
    ensures
        state.search_text@.len() == 0 ==> state.filtered().contains(i as usize),
        occurs_in(lowercase(state.search_text@), lowercase(state.items@[i].name@))
            ==> state.filtered().contains(i as usize),
        occurs_in(lowercase(state.search_text@), lowercase(state.items@[i].description@))
            ==> state.filtered().contains(i as usize),
        state.search_text@.len() > 0 && !occurs_in(
            lowercase(state.search_text@),
            lowercase(state.items@[i].name@),
        ) && !occurs_in(lowercase(state.search_text@), lowercase(state.items@[i].description@))
            ==> !state.filtered().contains(i as usize),
{
    lemma_matching_exact(state.items@, state.search_text@, state.items@.len() as int);
    let f = state.filtered();
    if f.contains(i as usize) {
        let j = choose|j: int| 0 <= j < f.len() && f[j] == i as usize;
        assert(f[j] < state.items@.len());
    }
}

/// With an empty search every entry is listed, in menu order.
pub proof fn lemma_empty_search_lists_all(items: Seq<LauncherItem>, query: Seq<char>, n: int)
    requires
        0 <= n <= items.len(),
        items.len() <= usize::MAX,
        query.len() == 0,
    ensures
        matching_indices(items, query, n) == Seq::new(n as nat, |i: int| i as usize),
    decreases n,
{
    if n > 0 {
        lemma_empty_search_lists_all(items, query, n - 1);
        assert(matching_indices(items, query, n) =~= Seq::new(n as nat, |i: int| i as usize));
    }
}


/// Typing a character and deleting it again gives back the search as it
/// was (for a character that `input_char` keeps).
pub proof fn lemma_type_then_delete(text: Seq<char>, c: char)
    ensures
        text.push(c).len() > 0,
        text.push(c).drop_last() == text,
{
    assert(text.push(c).drop_last() =~= text);
}

/// A pointer on visible line `line` finds the row drawn on that line, and a
/// line below the drawn rows finds none.
pub proof fn lemma_lines_match_drawn_rows(state: &LauncherState, line: int)
    requires
        0 <= line,
        state.scroll_offset + state.current_visible_count <= usize::MAX,
    ensures
        line < state.shown_rows().len() ==> state.line_row(line) == Some(state.shown_rows()[line]),
        line >= state.shown_rows().len() ==> state.line_row(line) is None,
{
}


/// The wheel never scrolls past the start of the last page, and never moves
/// the list by more than one row.
pub proof fn lemma_wheel_stays_on_pages(state: &LauncherState, delta_y: i32)
    ensures
        state.scroll_offset <= state.last_page_start() ==> state.scroll_after_wheel(delta_y)
            <= state.last_page_start(),
        state.scroll_after_wheel(delta_y) >= 0,
        state.scroll_offset - 1 <= state.scroll_after_wheel(delta_y) <= state.scroll_offset + 1,
{
}


/// Every row drawn, and every row a visible line finds, is a row of the
/// filtered list; the rows drawn are consecutive from the first row shown,
/// and no more of them than fit.
pub proof fn lemma_shown_rows_within_filtered(state: &LauncherState, line: int)
    requires
        state.items@.len() <= usize::MAX,
    ensures
        state.shown_rows().len() <= state.current_visible_count,
        forall|i: int|
            0 <= i < state.shown_rows().len() ==> #[trigger] state.shown_rows()[i]
                < state.filtered().len() && state.shown_rows()[i] == state.scroll_offset + i,
        state.scroll_offset < state.filtered().len() && state.current_visible_count >= 1
            ==> state.shown_rows().len() >= 1,
        state.line_row(line) matches Some(r) ==> r < state.filtered().len() && r
            == state.scroll_offset + line,
{
    lemma_matching_exact(state.items@, state.search_text@, state.items@.len() as int);
}

/// The space and every other character outside the control ranges U+0000 to
/// U+001F and U+007F to U+009F is kept when typed.
pub proof fn lemma_printable_chars_are_typed(c: char)
    ensures
        (c as u32) >= 0x20 && ((c as u32) < 0x7f || (c as u32) > 0x9f) ==> !is_control(c),
        c == ' ' ==> !is_control(c),
        c == '\n' ==> is_control(c),
        (c as u32) == 0x7f ==> is_control(c),
{
}

/// The wheel keeps the first row shown within the pages of the filtered
/// list: never past the filtered rows less one page, once within them.
pub proof fn lemma_wheel_within_filtered_pages(state: &LauncherState, delta_y: i32)
    ensures
        ({
            let n = state.filtered().len() as int;
            let v = state.current_visible_count as int;
            let last = if n > v {
                n - v
            } else {
                0
            };
            &&& state.scroll_offset <= last ==> state.scroll_after_wheel(delta_y) <= last
            &&& delta_y < 0 ==> state.scroll_after_wheel(delta_y) <= if state.scroll_offset > last {
                state.scroll_offset as int
            } else {
                last
            }
        }),
{
}

/// Moving the selection down one row and then up one row gives back the
/// row selected before, unless it was the last filtered row.
pub proof fn lemma_down_then_up(a: &LauncherState, b: &LauncherState, c: &LauncherState)
    requires
        LauncherState::moved(a, b, 1i32),
        LauncherState::moved(b, c, -1i32),
        a.selected_index + 1 < a.filtered().len(),
    ensures
        b.selected_index == a.selected_index + 1,
        c.selected_index == a.selected_index,
{
}

/// Scrolling the wheel down one notch and then up one notch gives back the
/// first row shown, unless the list already showed its last page.
pub proof fn lemma_wheel_down_then_up(a: &LauncherState, b: &LauncherState)
    requires
        b.items@ == a.items@,
        b.search_text@ == a.search_text@,
        b.current_visible_count == a.current_visible_count,
        b.scroll_offset == a.scroll_after_wheel(-1i32),
        a.filtered().len() > 0,
        a.scroll_offset < a.last_page_start(),
    ensures
        b.scroll_offset == a.scroll_offset + 1,
        b.scroll_after_wheel(1i32) == a.scroll_offset,
{
}

} // verus!
