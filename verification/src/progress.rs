//! The reading progress of one device: for every book that was opened, the
//! page, when it was last read, and how it was looked at.

use crate::timestamp::{later, latest, Timestamp};
use vstd::prelude::*;

verus! {

/// The progress in one book. Pages count from one; `total_pages` is zero
/// while the number of pages is not known. Offsets are in thousandths of a
/// pixel and the zoom in thousandths.
#[derive(Debug)]
pub struct BookProgress {
    pub file_name: String,
    pub file_path: String,
    pub file_hash: String,
    pub total_pages: u32,
    pub current_page: u32,
    pub last_read: Timestamp,
    pub scroll_offset: (i32, i32),
    pub zoom: Option<u32>,
}

/// The mathematical view of a [`BookProgress`].
pub struct BookProgressView {
    pub file_name: Seq<char>,
    pub file_path: Seq<char>,
    pub file_hash: Seq<char>,
    pub total_pages: u32,
    pub current_page: u32,
    pub last_read: Timestamp,
    pub scroll_offset: (i32, i32),
    pub zoom: Option<u32>,
}

impl View for BookProgress {
    type V = BookProgressView;

    open spec fn view(&self) -> BookProgressView {
        BookProgressView {
            file_name: self.file_name@,
            file_path: self.file_path@,
            file_hash: self.file_hash@,
            total_pages: self.total_pages,
            current_page: self.current_page,
            last_read: self.last_read,
            scroll_offset: self.scroll_offset,
            zoom: self.zoom,
        }
    }
}

/// The page that is gone to when `page` is asked for in a book of `total`
/// pages: the nearest one that exists, and the first one while the number
/// of pages is not known.
pub open spec fn clamped_page(page: u32, total: u32) -> u32 {
    if total == 0 || page < 1 {
        1
    } else if page > total {
        total
    } else {
        page
    }
}

/// How far a book is read, in thousandths of a percent; zero while the
/// number of pages is not known.
pub open spec fn percent_read(current_page: u32, total_pages: u32) -> int {
    if total_pages == 0 {
        0
    } else {
        current_page * 100_000 / (total_pages as int)
    }
}

/// Computes the page that is gone to.
pub fn clamp_page(page: u32, total: u32) -> (r: u32)
    ensures
        r == clamped_page(page, total),
        r >= 1,
        total > 0 ==> r <= total,
{
    if total == 0 || page < 1 {
        1
    } else if page > total {
        total
    } else {
        page
    }
}

impl BookProgress {
    /// How far the book is read, in thousandths of a percent.
    pub fn progress_percent(&self) -> (r: u64)
        ensures
            r == percent_read(self.current_page, self.total_pages),
    {
        if self.total_pages == 0 {
            0
        } else {
            self.current_page as u64 * 100_000 / self.total_pages as u64
        }
    }

    /// A copy of the progress.
    pub fn duplicate(&self) -> (r: BookProgress)
        ensures
            r@ == self@,
    {
        BookProgress {
            file_name: self.file_name.clone(),
            file_path: self.file_path.clone(),
            file_hash: self.file_hash.clone(),
            total_pages: self.total_pages,
            current_page: self.current_page,
            last_read: self.last_read,
            scroll_offset: self.scroll_offset,
            zoom: self.zoom,
        }
    }
}

/// The books of a list of entries: each identity with the progress that
/// stands beside it first.
pub open spec fn books_of(entries: Seq<(String, BookProgress)>) -> Map<
    Seq<char>,
    BookProgressView,
> {
    Map::new(
        |k: Seq<char>| exists|i: int| 0 <= i < entries.len() && (#[trigger] entries[i]).0@ == k,
        |k: Seq<char>|
            entries[choose|i: int| 0 <= i < entries.len() && (#[trigger] entries[i]).0@ == k].1@,
    )
}

/// Whether no identity occurs twice in a list of entries.
pub open spec fn distinct_books(entries: Seq<(String, BookProgress)>) -> bool {
    forall|i: int, j: int|
        0 <= i < j < entries.len() ==> (#[trigger] entries[i]).0@ != (#[trigger] entries[j]).0@
}

/// In a list without a repeated identity, the books hold each entry.
pub proof fn lemma_books_of_entry(entries: Seq<(String, BookProgress)>, i: int)
    requires
        distinct_books(entries),
        0 <= i < entries.len(),
    ensures
        books_of(entries).dom().contains(entries[i].0@),
        books_of(entries)[entries[i].0@] == entries[i].1@,
{
    let k = entries[i].0@;
    let j = choose|j: int| 0 <= j < entries.len() && (#[trigger] entries[j]).0@ == k;
    if j < i {
        assert(entries[j].0@ != entries[i].0@);
    } else if i < j {
        assert(entries[i].0@ != entries[j].0@);
    }
}

/// Replacing the progress of the entry at `i` replaces it among the books.
pub proof fn lemma_books_of_update(
    before: Seq<(String, BookProgress)>,
    after: Seq<(String, BookProgress)>,
    i: int,
)
    requires
        distinct_books(before),
        0 <= i < before.len(),
        after.len() == before.len(),
        forall|j: int| 0 <= j < before.len() ==> (#[trigger] after[j]).0@ == before[j].0@,
        forall|j: int| 0 <= j < before.len() && j != i ==> (#[trigger] after[j]).1@ == before[j].1@,
    ensures
        distinct_books(after),
        books_of(after) == books_of(before).insert(before[i].0@, after[i].1@),
{
    assert forall|a: int, b: int| 0 <= a < b < after.len() implies (#[trigger] after[a]).0@ != (
    #[trigger] after[b]).0@ by {
        assert(before[a].0@ != before[b].0@);
    }
    let target = books_of(before).insert(before[i].0@, after[i].1@);
    assert forall|k: Seq<char>| books_of(after).dom().contains(k) == target.dom().contains(
        k,
    ) by {
        if books_of(after).dom().contains(k) {
            let j = choose|j: int| 0 <= j < after.len() && (#[trigger] after[j]).0@ == k;
            assert(before[j].0@ == k);
        }
        if target.dom().contains(k) && k != before[i].0@ {
            let j = choose|j: int| 0 <= j < before.len() && (#[trigger] before[j]).0@ == k;
            assert(after[j].0@ == k);
        }
        if k == before[i].0@ {
            assert(after[i].0@ == k);
        }
    }
    assert forall|k: Seq<char>| books_of(after).dom().contains(k) implies books_of(after)[k]
        == target[k] by {
        let j = choose|j: int| 0 <= j < after.len() && (#[trigger] after[j]).0@ == k;
        lemma_books_of_entry(after, j);
        if j != i {
            assert(before[j].0@ == k);
            lemma_books_of_entry(before, j);
            assert(before[j].0@ != before[i].0@) by {
                if j < i {
                    assert(before[j].0@ != before[i].0@);
                } else {
                    assert(before[i].0@ != before[j].0@);
                }
            }
        }
    }
    assert(books_of(after) =~= target);
}

/// Adding an entry with a new identity adds it to the books.
pub proof fn lemma_books_of_push(
    before: Seq<(String, BookProgress)>,
    entry: (String, BookProgress),
)
    requires
        distinct_books(before),
        !books_of(before).dom().contains(entry.0@),
    ensures
        distinct_books(before.push(entry)),
        books_of(before.push(entry)) == books_of(before).insert(entry.0@, entry.1@),
{
    let after = before.push(entry);
    assert forall|a: int, b: int| 0 <= a < b < after.len() implies (#[trigger] after[a]).0@ != (
    #[trigger] after[b]).0@ by {
        if b == before.len() {
            assert(before[a].0@ != entry.0@);
        } else {
            assert(before[a].0@ != before[b].0@);
        }
    }
    let target = books_of(before).insert(entry.0@, entry.1@);
    assert forall|k: Seq<char>| books_of(after).dom().contains(k) == target.dom().contains(
        k,
    ) by {
        if books_of(after).dom().contains(k) {
            let j = choose|j: int| 0 <= j < after.len() && (#[trigger] after[j]).0@ == k;
            if j < before.len() {
                assert(before[j].0@ == k);
            }
        }
        if target.dom().contains(k) && k != entry.0@ {
            let j = choose|j: int| 0 <= j < before.len() && (#[trigger] before[j]).0@ == k;
            assert(after[j].0@ == k);
        }
        if k == entry.0@ {
            assert(after[before.len() as int].0@ == k);
        }
    }
    assert forall|k: Seq<char>| books_of(after).dom().contains(k) implies books_of(after)[k]
        == target[k] by {
        let j = choose|j: int| 0 <= j < after.len() && (#[trigger] after[j]).0@ == k;
        lemma_books_of_entry(after, j);
        if j < before.len() {
            assert(before[j].0@ == k);
            lemma_books_of_entry(before, j);
        }
    }
    assert(books_of(after) =~= target);
}

/// A list of entries without a repeated identity holds as many books as
/// it has entries.
pub proof fn lemma_books_of_len(entries: Seq<(String, BookProgress)>)
    requires
        distinct_books(entries),
    ensures
        books_of(entries).dom().finite(),
        books_of(entries).dom().len() == entries.len(),
    decreases entries.len(),
{
    if entries.len() == 0 {
        assert(books_of(entries).dom() =~= Set::empty());
    } else {
        let head = entries.drop_last();
        let last = entries.last();
        assert forall|a: int, b: int| 0 <= a < b < head.len() implies (#[trigger] head[a]).0@ != (
        #[trigger] head[b]).0@ by {
            assert(entries[a].0@ != entries[b].0@);
        }
        lemma_books_of_len(head);
        if books_of(head).dom().contains(last.0@) {
            let j = choose|j: int| 0 <= j < head.len() && (#[trigger] head[j]).0@ == last.0@;
            assert(entries[j].0@ != entries[entries.len() - 1].0@);
        }
        lemma_books_of_push(head, last);
        assert(head.push(last) =~= entries);
        assert(books_of(entries).dom() =~= books_of(head).dom().insert(last.0@));
    }
}

/// The reading progress of one device: the unit that is saved and merged.
pub struct ReadingProgress {
    pub version: u32,
    pub last_modified: Timestamp,
    pub device_id: String,
    books: Vec<(String, BookProgress)>,
}

/// The mathematical view of a [`ReadingProgress`]: its books are a map
/// from identity to progress.
pub struct ReadingProgressView {
    pub version: u32,
    pub last_modified: Timestamp,
    pub device_id: Seq<char>,
    pub books: Map<Seq<char>, BookProgressView>,
}

impl View for ReadingProgress {
    type V = ReadingProgressView;

    closed spec fn view(&self) -> ReadingProgressView {
        ReadingProgressView {
            version: self.version,
            last_modified: self.last_modified,
            device_id: self.device_id@,
            books: books_of(self.books@),
        }
    }
}

/// The version of the format in which progress is saved.
pub const PROGRESS_VERSION: u32 = 1;

/// A progress without books.
pub open spec fn fresh_progress(device_id: Seq<char>, now: Timestamp) -> ReadingProgressView {
    ReadingProgressView {
        version: PROGRESS_VERSION,
        last_modified: now,
        device_id,
        books: Map::empty(),
    }
}

/// The progress of a book that is opened for the first time. A book that
/// is tracked already keeps the later of its time and now.
pub open spec fn opened_book(
    before: Option<BookProgressView>,
    book_hash: Seq<char>,
    file_name: Seq<char>,
    file_path: Seq<char>,
    total_pages: u32,
    now: Timestamp,
) -> BookProgressView {
    BookProgressView {
        file_name,
        file_path,
        file_hash: book_hash,
        total_pages,
        current_page: 1,
        last_read: match before {
            Some(b) => latest(b.last_read, now),
            None => now,
        },
        scroll_offset: (0, 0),
        zoom: None,
    }
}

/// A progress in which a book is tracked from its first page on.
pub open spec fn added_book(
    before: ReadingProgressView,
    book_hash: Seq<char>,
    file_name: Seq<char>,
    file_path: Seq<char>,
    total_pages: u32,
    now: Timestamp,
) -> ReadingProgressView {
    ReadingProgressView {
        last_modified: now,
        books: before.books.insert(
            book_hash,
            opened_book(
                if before.books.dom().contains(book_hash) {
                    Some(before.books[book_hash])
                } else {
                    None
                },
                book_hash,
                file_name,
                file_path,
                total_pages,
                now,
            ),
        ),
        ..before
    }
}

/// The progress in a book after a page of it was gone to.
pub open spec fn turned_to(b: BookProgressView, page: u32, now: Timestamp) -> BookProgressView {
    BookProgressView {
        current_page: clamped_page(page, b.total_pages),
        last_read: latest(b.last_read, now),
        ..b
    }
}

/// The progress in a book after its number of pages was learnt: the page
/// stays one that exists.
pub open spec fn counted(b: BookProgressView, total_pages: u32) -> BookProgressView {
    BookProgressView {
        total_pages,
        current_page: clamped_page(b.current_page, total_pages),
        ..b
    }
}

/// Whether a number of pages that was learnt is news for a progress: it is
/// not zero, the book is tracked, and it is tracked with another number.
pub open spec fn is_news(before: ReadingProgressView, book_hash: Seq<char>, total_pages: u32) -> bool {
    &&& total_pages > 0
    &&& before.books.dom().contains(book_hash)
    &&& before.books[book_hash].total_pages != total_pages
}

/// The books of two progresses merged: a book of one side only is taken
/// from that side; a book of both sides is taken from the side where it
/// was read strictly later, and from the local side when the times are the
/// same. Whole records are taken, never single fields.
pub open spec fn merged_books(
    local: Map<Seq<char>, BookProgressView>,
    remote: Map<Seq<char>, BookProgressView>,
) -> Map<Seq<char>, BookProgressView> {
    Map::new(
        |k: Seq<char>| local.dom().contains(k) || remote.dom().contains(k),
        |k: Seq<char>|
            if remote.dom().contains(k) && (!local.dom().contains(k) || later(
                remote[k].last_read,
                local[k].last_read,
            )) {
                remote[k]
            } else {
                local[k]
            },
    )
}

/// Two progresses merged at `now`: the books of both, and the device and
/// the version of the local one.
pub open spec fn merged(
    local: ReadingProgressView,
    remote: ReadingProgressView,
    now: Timestamp,
) -> ReadingProgressView {
    ReadingProgressView {
        last_modified: now,
        books: merged_books(local.books, remote.books),
        ..local
    }
}

/// A progress with one book changed, if the book is tracked, and a new
/// time of modification either way.
pub open spec fn with_book(
    before: ReadingProgressView,
    book_hash: Seq<char>,
    change: spec_fn(BookProgressView) -> BookProgressView,
    now: Timestamp,
) -> ReadingProgressView {
    ReadingProgressView {
        last_modified: now,
        books: if before.books.dom().contains(book_hash) {
            before.books.insert(book_hash, change(before.books[book_hash]))
        } else {
            before.books
        },
        ..before
    }
}

impl ReadingProgress {
    /// What holds of every progress that this module has made: no book is
    /// tracked twice.
    pub closed spec fn well_formed(&self) -> bool {
        distinct_books(self.books@)
    }

    /// A progress without books, modified now.
    pub fn new(device_id: String) -> (r: ReadingProgress)
        ensures
            r.well_formed(),
            r@ == fresh_progress(device_id@, r@.last_modified),
    {
        ReadingProgress::new_at(device_id, Timestamp::now())
    }

    /// A progress without books, modified at `now`.
    pub fn new_at(device_id: String, now: Timestamp) -> (r: ReadingProgress)
        ensures
            r.well_formed(),
            r@ == fresh_progress(device_id@, now),
    {
        let r = ReadingProgress {
            version: PROGRESS_VERSION,
            last_modified: now,
            device_id,
            books: Vec::new(),
        };
        assert(r@.books =~= Map::empty());
        r
    }

    /// Where the entry of a book stands.
    fn find_index(&self, book_hash: &str) -> (r: Option<usize>)
        requires
            self.well_formed(),
        ensures
            match r {
                Some(i) => i < self.books@.len() && self.books@[i as int].0@ == book_hash@
                    && self@.books.dom().contains(book_hash@) && self@.books[book_hash@]
                    == self.books@[i as int].1@,
                None => !self@.books.dom().contains(book_hash@),
            },
    {
        let mut i: usize = 0;
        while i < self.books.len()
            invariant
                i <= self.books.len(),
                self.well_formed(),
                forall|j: int| 0 <= j < i ==> (#[trigger] self.books@[j]).0@ != book_hash@,
            decreases self.books.len() - i,
        {
            if str::eq(self.books[i].0.as_str(), book_hash) {
                proof {
                    lemma_books_of_entry(self.books@, i as int);
                }
                return Some(i);
            }
            i += 1;
        }
        None
    }

    /// How many books are tracked.
    pub fn len(&self) -> (r: usize)
        requires
            self.well_formed(),
        ensures
            r == self@.books.dom().len(),
    {
        proof {
            lemma_books_of_len(self.books@);
        }
        self.books.len()
    }

    /// Whether no book is tracked.
    pub fn is_empty(&self) -> (r: bool)
        requires
            self.well_formed(),
        ensures
            r == (self@.books.dom().len() == 0),
    {
        proof {
            lemma_books_of_len(self.books@);
        }
        self.books.len() == 0
    }

    /// Whether a book is tracked.
    pub fn contains_key(&self, book_hash: &str) -> (r: bool)
        requires
            self.well_formed(),
        ensures
            r == self@.books.dom().contains(book_hash@),
    {
        self.find_index(book_hash).is_some()
    }

    /// The progress in a book, if it is tracked.
    pub fn get(&self, book_hash: &str) -> (r: Option<&BookProgress>)
        requires
            self.well_formed(),
        ensures
            match r {
                Some(progress) => self@.books.dom().contains(book_hash@) && self@.books[book_hash@]
                    == progress@,
                None => !self@.books.dom().contains(book_hash@),
            },
    {
        match self.find_index(book_hash) {
            Some(i) => Some(&self.books[i].1),
            None => None,
        }
    }

    /// The identity and the progress of the book at a place below `len`.
    /// Every tracked book stands at one place.
    pub fn entry_at(&self, index: usize) -> (r: (&String, &BookProgress))
        requires
            self.well_formed(),
            index < self@.books.dom().len(),
        ensures
            self@.books.dom().contains(r.0@),
            self@.books[r.0@] == r.1@,
    {
        proof {
            lemma_books_of_len(self.books@);
            lemma_books_of_entry(self.books@, index as int);
        }
        (&self.books[index].0, &self.books[index].1)
    }

    /// Puts the progress in a book in, in place of what was there for the
    /// book. Nothing else changes, not even the time of modification.
    pub fn insert(&mut self, book_hash: String, progress: BookProgress)
        requires
            old(self).well_formed(),
        ensures
            final(self).well_formed(),
            final(self)@ == (ReadingProgressView {
                books: old(self)@.books.insert(book_hash@, progress@),
                ..old(self)@
            }),
    {
        let ghost before = self.books@;
        match self.find_index(book_hash.as_str()) {
            Some(i) => {
                self.books[i] = (book_hash, progress);
                proof {
                    lemma_books_of_update(before, self.books@, i as int);
                }
            },
            None => {
                self.books.push((book_hash, progress));
                proof {
                    lemma_books_of_push(before, (book_hash, progress));
                }
            },
        }
    }

    /// Changes the progress in a tracked book.
    fn replace_at(&mut self, index: usize, progress: BookProgress)
        requires
            old(self).well_formed(),
            index < old(self).books@.len(),
        ensures
            final(self).well_formed(),
            final(self)@ == (ReadingProgressView {
                books: old(self)@.books.insert(old(self).books@[index as int].0@, progress@),
                ..old(self)@
            }),
    {
        let ghost before = self.books@;
        let key = self.books[index].0.clone();
        self.books[index] = (key, progress);
        proof {
            lemma_books_of_update(before, self.books@, index as int);
        }
    }

    /// Starts to track a book at its first page, read at `now`.
    pub fn add_book_at(
        &mut self,
        book_hash: String,
        file_name: String,
        file_path: String,
        total_pages: u32,
        now: Timestamp,
    )
        requires
            old(self).well_formed(),
        ensures
            final(self).well_formed(),
            final(self)@ == added_book(
                old(self)@,
                book_hash@,
                file_name@,
                file_path@,
                total_pages,
                now,
            ),
    {
        let last_read = match self.get(book_hash.as_str()) {
            Some(before) => before.last_read.or_later(now),
            None => now,
        };
        let progress = BookProgress {
            file_name,
            file_path,
            file_hash: book_hash.clone(),
            total_pages,
            current_page: 1,
            last_read,
            scroll_offset: (0, 0),
            zoom: None,
        };
        self.insert(book_hash, progress);
        self.last_modified = now;
    }

    /// Starts to track a book at its first page, read now.
    pub fn add_book(
        &mut self,
        book_hash: String,
        file_name: String,
        file_path: String,
        total_pages: u32,
    )
        requires
            old(self).well_formed(),
        ensures
            final(self).well_formed(),
            final(self)@ == added_book(
                old(self)@,
                book_hash@,
                file_name@,
                file_path@,
                total_pages,
                final(self)@.last_modified,
            ),
    {
        self.add_book_at(book_hash, file_name, file_path, total_pages, Timestamp::now())
    }

    /// Goes to a page of a tracked book at `now`: the nearest page that
    /// exists. The book is read no earlier than it was; the progress is
    /// modified at `now` whether the book is tracked or not.
    pub fn update_book_progress_at(&mut self, book_hash: &str, current_page: u32, now: Timestamp)
        requires
            old(self).well_formed(),
        ensures
            final(self).well_formed(),
            final(self)@ == with_book(
                old(self)@,
                book_hash@,
                |b: BookProgressView| turned_to(b, current_page, now),
                now,
            ),
    {
        match self.find_index(book_hash) {
            Some(i) => {
                let mut progress = self.books[i].1.duplicate();
                progress.current_page = clamp_page(current_page, progress.total_pages);
                progress.last_read = progress.last_read.or_later(now);
                self.replace_at(i, progress);
            },
            None => {},
        }
        self.last_modified = now;
    }

    /// Goes to a page of a tracked book now.
    pub fn update_book_progress(&mut self, book_hash: &str, current_page: u32)
        requires
            old(self).well_formed(),
        ensures
            final(self).well_formed(),
            final(self)@ == with_book(
                old(self)@,
                book_hash@,
                |b: BookProgressView| turned_to(b, current_page, final(self)@.last_modified),
                final(self)@.last_modified,
            ),
    {
        self.update_book_progress_at(book_hash, current_page, Timestamp::now())
    }

    /// Records the number of pages of a book as a renderer has counted it,
    /// at `now`. A count of zero says nothing; a count that differs from
    /// the one on record replaces it, and `true` says that there is
    /// something to save.
    pub fn record_total_pages_at(&mut self, book_hash: &str, total_pages: u32, now: Timestamp) -> (r:
        bool)
        requires
            old(self).well_formed(),
        ensures
            final(self).well_formed(),
            r == is_news(old(self)@, book_hash@, total_pages),
            final(self)@ == if r {
                with_book(
                    old(self)@,
                    book_hash@,
                    |b: BookProgressView| counted(b, total_pages),
                    now,
                )
            } else {
                old(self)@
            },
    {
        if total_pages == 0 {
            return false;
        }
        match self.find_index(book_hash) {
            Some(i) => {
                if self.books[i].1.total_pages != total_pages {
                    let mut progress = self.books[i].1.duplicate();
                    progress.total_pages = total_pages;
                    progress.current_page = clamp_page(progress.current_page, total_pages);
                    self.replace_at(i, progress);
                    self.last_modified = now;
                    true
                } else {
                    false
                }
            },
            None => false,
        }
    }

    /// A copy of the progress.
    pub fn duplicate(&self) -> (r: ReadingProgress)
        requires
            self.well_formed(),
        ensures
            r.well_formed(),
            r@ == self@,
    {
        let mut books: Vec<(String, BookProgress)> = Vec::new();
        let mut i: usize = 0;
        while i < self.books.len()
            invariant
                i <= self.books.len(),
                books@.len() == i,
                forall|j: int|
                    0 <= j < i ==> (#[trigger] books@[j]).0@ == self.books@[j].0@ && books@[j].1@
                        == self.books@[j].1@,
            decreases self.books.len() - i,
        {
            books.push((self.books[i].0.clone(), self.books[i].1.duplicate()));
            i += 1;
        }
        let r = ReadingProgress {
            version: self.version,
            last_modified: self.last_modified,
            device_id: self.device_id.clone(),
            books,
        };
        proof {
            assert forall|a: int, b: int| 0 <= a < b < r.books@.len() implies (
            #[trigger] r.books@[a]).0@ != (#[trigger] r.books@[b]).0@ by {
                assert(self.books@[a].0@ != self.books@[b].0@);
            }
            assert forall|k: Seq<char>| r@.books.dom().contains(k) == self@.books.dom().contains(
                k,
            ) by {
                if r@.books.dom().contains(k) {
                    let j = choose|j: int| 0 <= j < r.books@.len() && (#[trigger] r.books@[j]).0@
                        == k;
                    assert(self.books@[j].0@ == k);
                }
                if self@.books.dom().contains(k) {
                    let j = choose|j: int|
                        0 <= j < self.books@.len() && (#[trigger] self.books@[j]).0@ == k;
                    assert(r.books@[j].0@ == k);
                }
            }
            assert forall|k: Seq<char>| r@.books.dom().contains(k) implies r@.books[k]
                == self@.books[k] by {
                let j = choose|j: int| 0 <= j < r.books@.len() && (#[trigger] r.books@[j]).0@
                    == k;
                lemma_books_of_entry(r.books@, j);
                assert(self.books@[j].0@ == k);
                lemma_books_of_entry(self.books@, j);
            }
            assert(r@.books =~= self@.books);
        }
        r
    }

    /// This progress with another merged into it at `now`: last read wins,
    /// book by book.
    pub fn merge_from(&self, remote: &ReadingProgress, now: Timestamp) -> (r: ReadingProgress)
        requires
            self.well_formed(),
            remote.well_formed(),
        ensures
            r.well_formed(),
            r@ == merged(self@, remote@, now),
    {
        let mut result = self.duplicate();
        let mut i: usize = 0;
        proof {
            assert(remote.books@.take(0) =~= Seq::empty());
            assert(books_of(remote.books@.take(0)) =~= Map::empty());
            assert(merged_books(self@.books, Map::empty()) =~= self@.books);
        }
        while i < remote.books.len()
            invariant
                i <= remote.books.len(),
                remote.well_formed(),
                result.well_formed(),
                result@.version == self@.version,
                result@.device_id == self@.device_id,
                result@.books == merged_books(
                    self@.books,
                    books_of(remote.books@.take(i as int)),
                ),
            decreases remote.books.len() - i,
        {
            let ghost seen = remote.books@.take(i as int);
            let ghost entry = remote.books@[i as int];
            let ghost before = result@.books;
            proof {
                assert forall|a: int, b: int| 0 <= a < b < seen.len() implies (
                #[trigger] seen[a]).0@ != (#[trigger] seen[b]).0@ by {
                    assert(remote.books@[a].0@ != remote.books@[b].0@);
                }
                if books_of(seen).dom().contains(entry.0@) {
                    let j = choose|j: int| 0 <= j < seen.len() && (#[trigger] seen[j]).0@
                        == entry.0@;
                    assert(remote.books@[j].0@ != remote.books@[i as int].0@);
                }
                lemma_books_of_push(seen, entry);
                assert(seen.push(entry) =~= remote.books@.take(i + 1));
            }
            let key = &remote.books[i].0;
            let theirs = &remote.books[i].1;
            match result.find_index(key.as_str()) {
                Some(j) => {
                    if theirs.last_read.is_later_than(&result.books[j].1.last_read) {
                        result.replace_at(j, theirs.duplicate());
                    }
                },
                None => {
                    result.insert(key.clone(), theirs.duplicate());
                },
            }
            proof {
                assert(result@.books =~= merged_books(
                    self@.books,
                    books_of(seen).insert(entry.0@, entry.1@),
                ));
            }
            i += 1;
        }
        proof {
            assert(remote.books@.take(remote.books@.len() as int) =~= remote.books@);
        }
        result.last_modified = now;
        result
    }

    /// Records where a tracked book is scrolled to, at `now`.
    pub fn update_scroll_offset_at(&mut self, book_hash: &str, offset: (i32, i32), now: Timestamp)
        requires
            old(self).well_formed(),
        ensures
            final(self).well_formed(),
            final(self)@ == with_book(
                old(self)@,
                book_hash@,
                |b: BookProgressView| BookProgressView { scroll_offset: offset, ..b },
                now,
            ),
    {
        match self.find_index(book_hash) {
            Some(i) => {
                let mut progress = self.books[i].1.duplicate();
                progress.scroll_offset = offset;
                self.replace_at(i, progress);
            },
            None => {},
        }
        self.last_modified = now;
    }

    /// Records where a tracked book is scrolled to, now.
    pub fn update_scroll_offset(&mut self, book_hash: &str, offset: (i32, i32))
        requires
            old(self).well_formed(),
        ensures
            final(self).well_formed(),
            final(self)@ == with_book(
                old(self)@,
                book_hash@,
                |b: BookProgressView| BookProgressView { scroll_offset: offset, ..b },
                final(self)@.last_modified,
            ),
    {
        self.update_scroll_offset_at(book_hash, offset, Timestamp::now())
    }

    /// Records the zoom of a tracked book, at `now`.
    pub fn update_zoom_at(&mut self, book_hash: &str, zoom: u32, now: Timestamp)
        requires
            old(self).well_formed(),
        ensures
            final(self).well_formed(),
            final(self)@ == with_book(
                old(self)@,
                book_hash@,
                |b: BookProgressView| BookProgressView { zoom: Some(zoom), ..b },
                now,
            ),
    {
        match self.find_index(book_hash) {
            Some(i) => {
                let mut progress = self.books[i].1.duplicate();
                progress.zoom = Some(zoom);
                self.replace_at(i, progress);
            },
            None => {},
        }
        self.last_modified = now;
    }

    /// Records the zoom of a tracked book, now.
    pub fn update_zoom(&mut self, book_hash: &str, zoom: u32)
        requires
            old(self).well_formed(),
        ensures
            final(self).well_formed(),
            final(self)@ == with_book(
                old(self)@,
                book_hash@,
                |b: BookProgressView| BookProgressView { zoom: Some(zoom), ..b },
                final(self)@.last_modified,
            ),
    {
        self.update_zoom_at(book_hash, zoom, Timestamp::now())
    }
}

} // verus!
