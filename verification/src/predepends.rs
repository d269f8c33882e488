//! Which packages pre-depend on a given package, read from the tool's
//! dependency listings. A listing is a run of blocks: a line that is not
//! indented names a package, and the indented lines below it name that
//! package's relations.

use crate::error::ListingError;
use crate::text::{
    after_first_line, chars_of, first_line, lemma_line_len_bound, line_len, lines, next_line,
    skip_whitespace, skip_whitespace_back, texts_of, trim, trim_start, window_is,
};
use vstd::prelude::*;

verus! {

/// Whether `line` opens a block: it does not begin with a space.
pub open spec fn is_header(line: Seq<char>) -> bool {
    line.len() == 0 || line[0] != ' '
}

/// Whether `line` is the relation line that states a pre-dependency on
/// `target`.
pub open spec fn names_predepend(line: Seq<char>, target: Seq<char>) -> bool {
    line == "  PreDepends: "@ + target
}

/// What a cursor over a listing stands for: the lines not yet read, the name
/// of the block that is being read, and the package that is searched for.
pub ghost struct CursorModel {
    pub lines: Seq<Seq<char>>,
    pub active: Seq<char>,
    pub predepend: Seq<char>,
}

/// The outcome of reading on from a cursor: the package that is reported, if
/// any, and the lines and the active name that are left.
pub ghost struct Scan {
    pub reported: Option<Seq<char>>,
    pub lines: Seq<Seq<char>>,
    pub active: Seq<char>,
}

/// Reads `lines` up to the next report. `found` tells whether the block that
/// is being read has already shown the pre-dependency. A block is reported, by
/// the name in `active`, when the line that opens the next block is read;
/// that line's trimmed content becomes the active name. Where the lines run
/// out, nothing is reported.
pub open spec fn scan(
    lines: Seq<Seq<char>>,
    active: Seq<char>,
    found: bool,
    target: Seq<char>,
) -> Scan
    decreases lines.len(),
{
    if lines.len() == 0 {
        Scan { reported: None, lines, active }
    } else if is_header(lines[0]) {
        if found {
            Scan { reported: Some(active), lines: lines.drop_first(), active: trim(lines[0]) }
        } else {
            scan(lines.drop_first(), trim(lines[0]), false, target)
        }
    } else {
        scan(lines.drop_first(), active, found || names_predepend(lines[0], target), target)
    }
}

/// All the packages that are reported from `lines` on, in order: the name of
/// each block that holds the pre-dependency line and is followed by another
/// block. The last block of a listing is never reported.
pub open spec fn reported(
    lines: Seq<Seq<char>>,
    active: Seq<char>,
    found: bool,
    target: Seq<char>,
) -> Seq<Seq<char>>
    decreases lines.len(),
{
    if lines.len() == 0 {
        Seq::empty()
    } else if is_header(lines[0]) {
        let here = if found {
            seq![active]
        } else {
            Seq::empty()
        };
        here + reported(lines.drop_first(), trim(lines[0]), false, target)
    } else {
        reported(
            lines.drop_first(),
            active,
            found || names_predepend(lines[0], target),
            target,
        )
    }
}

/// Whether a listing opens with the line that names its first package: it has
/// a first line, and that line opens a block.
pub open spec fn has_leading_package(listing: Seq<char>) -> bool {
    lines(listing).len() > 0 && is_header(lines(listing)[0])
}

/// The names that the forward-dependency listing `listing` reports for
/// `target`, or nothing where the listing does not open with a package line.
pub open spec fn predepends_in(listing: Seq<char>, target: Seq<char>) -> Option<Seq<Seq<char>>> {
    let all = lines(listing);
    if has_leading_package(listing) {
        Some(reported(all.drop_first(), trim(all[0]), false, target))
    } else {
        None
    }
}

/// A listing opens with a package line exactly where it is not empty and does
/// not begin with a space.
pub proof fn law_leading_package(listing: Seq<char>)
    ensures
        has_leading_package(listing) <==> listing.len() > 0 && listing[0] != ' ',
{
    if listing.len() > 0 {
        let n = line_len(listing) as int;
        let first = first_line(listing);
        lemma_line_len_bound(listing);
        assert(lines(listing)[0] == first);
        if n > 0 && n < listing.len() {
            assert(listing.take(n)[0] == listing[0]);
            assert(first.len() > 0 ==> first[0] == listing[0]);
            assert(listing[0] == ' ' ==> first.len() > 0);
        }
    }
}

/// Reading on consumes at least one line where it reports a package, and the
/// reports that follow are those of the whole without the first.
pub proof fn lemma_scan_reported(
    lines: Seq<Seq<char>>,
    active: Seq<char>,
    found: bool,
    target: Seq<char>,
)
    ensures
        scan(lines, active, found, target).lines.len() <= lines.len(),
        match scan(lines, active, found, target).reported {
            Some(name) => {
                let next = scan(lines, active, found, target);
                &&& next.lines.len() < lines.len()
                &&& reported(lines, active, found, target) == seq![name] + reported(
                    next.lines,
                    next.active,
                    false,
                    target,
                )
            },
            None => {
                &&& scan(lines, active, found, target).lines.len() == 0
                &&& reported(lines, active, found, target).len() == 0
            },
        },
    decreases lines.len(),
{
    if lines.len() == 0 {
    } else if is_header(lines[0]) {
        if found {
            assert(reported(lines, active, found, target) =~= seq![active] + reported(
                lines.drop_first(),
                trim(lines[0]),
                false,
                target,
            ));
        } else {
            lemma_scan_reported(lines.drop_first(), trim(lines[0]), false, target);
            assert(reported(lines, active, found, target) =~= reported(
                lines.drop_first(),
                trim(lines[0]),
                false,
                target,
            ));
        }
    } else {
        lemma_scan_reported(
            lines.drop_first(),
            active,
            found || names_predepend(lines[0], target),
            target,
        );
    }
}

/// A cursor over a forward-dependency listing that reports, one by one, the
/// packages with a pre-dependency on a given package. It borrows the listing.
pub struct PreDependsIter<'a> {
    text: &'a str,
    chars: Vec<char>,
    pos: usize,
    needle: Vec<char>,
    predepend: &'a str,
    active: (usize, usize),
}

impl<'a> View for PreDependsIter<'a> {
    type V = CursorModel;

    closed spec fn view(&self) -> CursorModel {
        CursorModel {
            lines: lines(self.chars@.subrange(self.pos as int, self.chars.len() as int)),
            active: self.chars@.subrange(self.active.0 as int, self.active.1 as int),
            predepend: self.predepend@,
        }
    }
}

impl<'a> PreDependsIter<'a> {
    #[verifier::type_invariant]
    spec fn well_formed(self) -> bool {
        &&& self.chars@ == self.text@
        &&& self.pos <= self.chars.len()
        &&& self.active.0 <= self.active.1 <= self.chars.len()
        &&& self.needle@ == "  PreDepends: "@ + self.predepend@
    }

    /// Opens a cursor on `output`, a forward-dependency listing, to look for
    /// the packages that pre-depend on `predepend`. The first line of the
    /// listing names the first block. A listing that does not open with such
    /// a line is refused: one without any line, and one whose first line is
    /// indented.
    pub fn new(
        output: &'a str,
        predepend: &'a str,
    ) -> (r: Result<PreDependsIter<'a>, ListingError>)
        ensures
            !has_leading_package(output@) ==> r == Err::<PreDependsIter<'a>, ListingError>(
                ListingError::NotFound,
            ),
            has_leading_package(output@) ==> (r matches Ok(it) && it@ == (CursorModel {
                lines: lines(output@).drop_first(),
                active: trim(lines(output@)[0]),
                predepend: predepend@,
            })),
    {
        let chars = chars_of(output);
        let n = chars.len();
        assert(chars@.subrange(0, n as int) == output@);
        if n == 0 {
            return Err(ListingError::NotFound);
        }
        let (end, next) = next_line(chars.as_slice(), 0, n);
        assert(lines(output@)[0] == first_line(output@));
        if end > 0 && chars[0] == ' ' {
            assert(!is_header(first_line(output@)));
            return Err(ListingError::NotFound);
        }
        assert(is_header(first_line(output@)));
        let from = skip_whitespace(chars.as_slice(), 0, end);
        let to = skip_whitespace_back(chars.as_slice(), from, end);
        let mut needle = chars_of("  PreDepends: ");
        let mut target = chars_of(predepend);
        needle.append(&mut target);
        assert(lines(output@).drop_first() == lines(after_first_line(output@)));
        Ok(
            PreDependsIter {
                text: output,
                chars,
                pos: next,
                needle,
                predepend,
                active: (from, to),
            },
        )
    }

    /// Reads on to the next package that pre-depends on the searched package
    /// and reports it; reports nothing once the listing is read to its end.
    pub fn next(&mut self) -> (r: Option<&'a str>)
        ensures
            final(self)@.predepend == old(self)@.predepend,
            final(self)@.lines == scan(
                old(self)@.lines,
                old(self)@.active,
                false,
                old(self)@.predepend,
            ).lines,
            final(self)@.active == scan(
                old(self)@.lines,
                old(self)@.active,
                false,
                old(self)@.predepend,
            ).active,
            match scan(old(self)@.lines, old(self)@.active, false, old(self)@.predepend).reported {
                Some(name) => r matches Some(s) && s@ == name,
                None => r is None,
            },
    {
        proof {
            use_type_invariant(&*self);
        }
        let n = self.chars.len();
        let mut found = false;
        let ghost target = self.predepend@;
        let ghost goal = scan(self@.lines, self@.active, false, target);
        while self.pos < n
            invariant
                n == self.chars.len(),
                self.chars@ == self.text@,
                self.pos <= n,
                self.active.0 <= self.active.1 <= n,
                self.needle@ == "  PreDepends: "@ + self.predepend@,
                self.predepend@ == target,
                target == old(self)@.predepend,
                goal == scan(old(self)@.lines, old(self)@.active, false, target),
                scan(self@.lines, self@.active, found, target) == goal,
            decreases n - self.pos,
        {
            let ghost window = self.chars@.subrange(self.pos as int, n as int);
            let ghost before = self@;
            let (end, next) = next_line(self.chars.as_slice(), self.pos, n);
            assert(before.lines == seq![first_line(window)] + lines(after_first_line(window)));
            assert(before.lines.drop_first() == lines(after_first_line(window)));
            assert(before.lines[0] == first_line(window));
            assert(scan(before.lines, before.active, found, target) == goal);
            if end > self.pos && self.chars[self.pos] == ' ' {
                assert(!is_header(first_line(window)));
                if !found && window_is(
                    self.chars.as_slice(),
                    self.pos,
                    end,
                    self.needle.as_slice(),
                ) {
                    found = true;
                }
                self.pos = next;
            } else {
                assert(is_header(first_line(window)));
                let from = skip_whitespace(self.chars.as_slice(), self.pos, end);
                let to = skip_whitespace_back(self.chars.as_slice(), from, end);
                let prev = self.active;
                self.active = (from, to);
                self.pos = next;
                assert(self@.active == trim(before.lines[0]));
                if found {
                    return Some(self.text.substring_char(prev.0, prev.1));
                }
            }
        }
        assert(self.chars@.subrange(n as int, n as int).len() == 0);
        None
    }

    /// Reads the listing to its end and gives every package that is reported
    /// on the way, in order.
    pub fn collect(self) -> (names: Vec<&'a str>)
        ensures
            texts_of(names@) == reported(
                self@.lines,
                self@.active,
                false,
                self@.predepend,
            ),
    {
        let mut cursor = self;
        let mut names: Vec<&'a str> = Vec::new();
        let ghost target = self@.predepend;
        let ghost all = reported(self@.lines, self@.active, false, target);
        loop
            invariant
                cursor@.predepend == target,
                all == texts_of(names@) + reported(
                    cursor@.lines,
                    cursor@.active,
                    false,
                    target,
                ),
            ensures
                all == texts_of(names@),
            decreases cursor@.lines.len(),
        {
            proof {
                lemma_scan_reported(cursor@.lines, cursor@.active, false, target);
            }
            let ghost before = texts_of(names@);
            match cursor.next() {
                Some(name) => {
                    names.push(name);
                    assert(texts_of(names@) =~= before + seq![name@]);
                },
                None => {
                    break ;
                },
            }
        }
        names
    }
}

/// The packages that pre-depend on `package` according to `buffer`, the
/// forward-dependency listing of the packages that depend on it. A listing
/// that does not open with a package line is refused.
pub fn predepends_of<'a>(
    buffer: &'a str,
    package: &'a str,
) -> (r: Result<Vec<&'a str>, ListingError>)
    ensures
        match predepends_in(buffer@, package@) {
            Some(names) => r matches Ok(v) && texts_of(v@) == names,
            None => r == Err::<Vec<&'a str>, ListingError>(ListingError::NotFound),
        },
{
    match PreDependsIter::new(buffer, package) {
        Ok(cursor) => Ok(cursor.collect()),
        Err(e) => Err(e),
    }
}

/// The candidates that a reverse-dependency listing names: its lines from the
/// third on, each without its leading whitespace. The first two lines are the
/// listing's header.
pub open spec fn candidates_in(listing: Seq<char>) -> Seq<Seq<char>> {
    let all = lines(listing);
    if all.len() <= 2 {
        Seq::empty()
    } else {
        all.skip(2).map_values(|line: Seq<char>| trim_start(line))
    }
}

/// Reads the candidates out of `output`, a reverse-dependency listing.
pub fn rdepends_candidates<'a>(output: &'a str) -> (names: Vec<&'a str>)
    ensures
        texts_of(names@) == candidates_in(output@),
{
    let chars = chars_of(output);
    let n = chars.len();
    let mut names: Vec<&'a str> = Vec::new();
    let mut pos: usize = 0;
    let mut index: usize = 0;
    let ghost all = lines(output@);
    assert(chars@.subrange(0, n as int) == output@);
    while pos < n
        invariant
            chars@ == output@,
            n == chars.len(),
            pos <= n,
            all == lines(output@),
            index <= all.len(),
            index <= pos,
            lines(chars@.subrange(pos as int, n as int)) == all.skip(index as int),
            index < 2 ==> names@.len() == 0,
            index >= 2 ==> texts_of(names@) == all.subrange(
                2,
                index as int,
            ).map_values(|line: Seq<char>| trim_start(line)),
        decreases n - pos,
    {
        let ghost window = chars@.subrange(pos as int, n as int);
        let (end, next) = next_line(chars.as_slice(), pos, n);
        assert(lines(window) == seq![first_line(window)] + lines(after_first_line(window)));
        assert(lines(window).drop_first() == lines(after_first_line(window)));
        assert(lines(window)[0] == first_line(window));
        assert(index < all.len());
        assert(all.skip(index as int)[0] == all[index as int]);
        assert(all.skip(index as int).drop_first() == all.skip(index + 1));
        if index >= 2 {
            let from = skip_whitespace(chars.as_slice(), pos, end);
            let ghost before = texts_of(names@);
            names.push(output.substring_char(from, end));
            assert(texts_of(names@) =~= before + seq![
                trim_start(all[index as int]),
            ]);
            assert(all.subrange(2, index + 1).map_values(|line: Seq<char>| trim_start(line))
                =~= before + seq![trim_start(all[index as int])]);
        }
        index += 1;
        pos = next;
    }
    assert(lines(chars@.subrange(n as int, n as int)).len() == 0);
    assert(all.skip(index as int).len() == 0);
    assert(index == all.len());
    if index > 2 {
        assert(all.subrange(2, index as int) =~= all.skip(2));
    } else {
        assert(texts_of(names@) =~= Seq::<Seq<char>>::empty());
    }
    names
}

} // verus!
