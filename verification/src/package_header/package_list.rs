//! Package lists: the header that every list starts with, the view of one list
//! inside a database, the cursor over the lists of a database, and the builder
//! of a list from packages.
use vstd::prelude::*;
use uefi::Guid;
use crate::error::HiiError;
use crate::records::{
    concat, lemma_concat_push, lemma_prepend_push, lemma_take_push, lemma_total_len_bounds, prepend,
    total_len,
};
use crate::guid::guid_bytes;
use crate::package_header::{
    is_package_bytes, lemma_packages_fill_body, parse_packages, total_stated_len, HiiPackage,
    PackageHeader, UndefineHiiPackageIter,
};
use crate::wire::{push_all, push_u32, read_u32, u32_at, u32_bytes};

verus! {

/// Number of bytes of a package list header: sixteen for the identifier, four
/// for the size.
pub const PACKAGE_LIST_HEADER_SIZE: usize = 20;

/// The header of a package list: the identifier of the list, and the size of
/// the whole list in bytes, this header included.
#[derive(Clone, Copy)]
pub struct EfiHiiPackageListHeader {
    pub package_list_guid: Guid,
    pub package_length: u32,
}

impl Default for EfiHiiPackageListHeader {
    /// The header with an identifier of sixteen zero bytes and the size zero.
    fn default() -> (r: Self)
        ensures
            guid_bytes(r.package_list_guid) == Seq::new(16, |i: int| 0u8),
            r.package_length == 0,
    {
        let zero: [u8; 16] = [0u8; 16];
        assert(zero@ =~= Seq::new(16, |i: int| 0u8));
        Self { package_list_guid: Guid::from_bytes(zero), package_length: 0 }
    }
}

impl EfiHiiPackageListHeader {
    /// The twenty bytes of the header as they stand in a buffer.
    pub open spec fn spec_bytes(self) -> Seq<u8> {
        guid_bytes(self.package_list_guid) + u32_bytes(self.package_length as int)
    }

    /// The header that the twenty bytes of `buf` at `at` hold.
    pub fn decode(buf: &[u8], at: usize) -> (r: Self)
        requires
            at + PACKAGE_LIST_HEADER_SIZE <= buf@.len(),
        ensures
            guid_bytes(r.package_list_guid) == buf@.subrange(at as int, at + 16),
            r.package_length == u32_at(buf@, at + 16),
            r.spec_bytes() == buf@.subrange(at as int, at + 20),
    {
        let id: [u8; 16] = [
            buf[at],
            buf[at + 1],
            buf[at + 2],
            buf[at + 3],
            buf[at + 4],
            buf[at + 5],
            buf[at + 6],
            buf[at + 7],
            buf[at + 8],
            buf[at + 9],
            buf[at + 10],
            buf[at + 11],
            buf[at + 12],
            buf[at + 13],
            buf[at + 14],
            buf[at + 15],
        ];
        let header = Self {
            package_list_guid: Guid::from_bytes(id),
            package_length: read_u32(buf, at + 16),
        };
        proof {
            assert(id@ =~= buf@.subrange(at as int, at + 16));
            crate::wire::lemma_written_read(buf@, at + 16);
            assert(header.spec_bytes() =~= buf@.subrange(at as int, at + 20));
        }
        header
    }

    /// The twenty bytes of the header as they stand in a buffer.
    pub fn to_bytes(&self) -> (r: Vec<u8>)
        ensures
            r@ == self.spec_bytes(),
    {
        let id: [u8; 16] = self.package_list_guid.to_bytes();
        let mut bytes: Vec<u8> = Vec::with_capacity(PACKAGE_LIST_HEADER_SIZE);
        push_all(&mut bytes, id.as_slice());
        push_u32(&mut bytes, self.package_length);
        assert(bytes@ =~= self.spec_bytes());
        bytes
    }
}

/// What stands at the front of the bytes that remain of a database: nothing
/// (`Ok(None)`), a package list of the size given, or a defect.
///
/// A list needs the twenty bytes of its header; the size that the header
/// states covers at least the header and at most what remains.
pub open spec fn list_step(rem: Seq<u8>) -> Result<Option<int>, HiiError> {
    if rem.len() == 0 {
        Ok(None)
    } else if rem.len() < 20 {
        Err(HiiError::TruncatedBuffer)
    } else if u32_at(rem, 16) < 20 {
        Err(HiiError::InvalidLength)
    } else if u32_at(rem, 16) > rem.len() {
        Err(HiiError::TruncatedBuffer)
    } else {
        Ok(Some(u32_at(rem, 16)))
    }
}

/// The package lists that a database is made of, each as its bytes and in the
/// order in which they stand, or the first defect that a walk from the front
/// meets.
pub open spec fn parse_package_lists(rem: Seq<u8>) -> Result<Seq<Seq<u8>>, HiiError>
    decreases rem.len(),
{
    match list_step(rem) {
        Ok(None) => Ok(Seq::empty()),
        Ok(Some(size)) => prepend(seq![rem.take(size)], parse_package_lists(rem.skip(size))),
        Err(e) => Err(e),
    }
}

/// Whether `s` is one whole package list: it starts with a header, and the size
/// that the header states is the length of `s`.
pub open spec fn is_package_list_bytes(s: Seq<u8>) -> bool {
    s.len() >= 20 && u32_at(s, 16) == s.len()
}

/// A package list inside a buffer: the buffer and the position of the list's
/// first byte in it.
///
/// The view owns nothing. Its value as a sequence of bytes, `self@`, is the
/// whole list, header and packages.
#[derive(Clone, Copy)]
pub struct UndefineHiiPackageListHeader<'a> {
    pub(crate) buf: &'a [u8],
    pub(crate) location: usize,
}

impl<'a> View for UndefineHiiPackageListHeader<'a> {
    type V = Seq<u8>;

    open spec fn view(&self) -> Seq<u8> {
        self.buffer().subrange(self.position(), self.position() + self.spec_total_size())
    }
}

impl<'a> UndefineHiiPackageListHeader<'a> {
    /// The buffer that holds the list.
    pub closed spec fn buffer(self) -> Seq<u8> {
        self.buf@
    }

    /// The position of the list's first byte in the buffer.
    pub closed spec fn position(self) -> int {
        self.location as int
    }

    /// The size that the list's header states: that of the whole list.
    pub open spec fn spec_total_size(self) -> int {
        u32_at(self.buffer(), self.position() + 16)
    }

    /// The list lies inside the buffer and is at least as long as its header.
    pub open spec fn wf(self) -> bool {
        &&& 0 <= self.position()
        &&& self.position() + 20 <= self.buffer().len()
        &&& 20 <= self.spec_total_size()
        &&& self.position() + self.spec_total_size() <= self.buffer().len()
    }

    /// The bytes of the list that follow its header: its packages.
    pub open spec fn body(self) -> Seq<u8> {
        self@.skip(20)
    }

    /// The list that starts at `location` in `buf`.
    pub(crate) fn at(buf: &'a [u8], location: usize) -> (r: Self)
        requires
            location + 20 <= buf@.len(),
            20 <= u32_at(buf@, location + 16),
            location + u32_at(buf@, location + 16) <= buf@.len(),
        ensures
            r.wf(),
            r.buffer() == buf@,
            r.position() == location,
    {
        Self { buf, location }
    }

    /// The position of the list's first byte in the buffer that holds it.
    pub fn as_ptr(&self) -> (r: usize)
        ensures
            r == self.position(),
    {
        self.location
    }

    /// The header of the list.
    pub fn header(&self) -> (r: EfiHiiPackageListHeader)
        requires
            self.wf(),
        ensures
            r.spec_bytes() == self@.take(20),
            guid_bytes(r.package_list_guid) == self@.take(16),
            r.package_length == self.spec_total_size(),
    {
        let header = EfiHiiPackageListHeader::decode(self.buf, self.location);
        proof {
            assert(self@.take(20) =~= self.buf@.subrange(self.location as int, self.location + 20));
            assert(self@.take(16) =~= self.buf@.subrange(self.location as int, self.location + 16));
        }
        header
    }

    /// The cursor over the packages of the list.
    pub fn into_iter(self) -> (r: UndefineHiiPackageIter<'a>)
        requires
            self.wf(),
        ensures
            r.wf(),
            r.buffer() == self.buffer(),
            r.position() == self.position() + 20,
            r@ == self.body(),
    {
        proof {
            crate::wire::lemma_len_fits(self.buf);
        }
        let total: usize = read_u32(self.buf, self.location + 16) as usize;
        let cursor = UndefineHiiPackageIter::over(
            self.buf,
            self.location + PACKAGE_LIST_HEADER_SIZE,
            total - PACKAGE_LIST_HEADER_SIZE,
        );
        proof {
            assert(cursor@ =~= self.body());
        }
        cursor
    }
}

/// A cursor over the package lists of a database.
///
/// It holds the buffer, the position of the next list and the number of bytes
/// that remain from there. Its value as a sequence of bytes, `self@`, is what
/// remains.
#[derive(Clone, Copy)]
pub struct UndefineHiiPackageListIter<'a> {
    pub(crate) buf: &'a [u8],
    pub(crate) location: usize,
    pub(crate) size: usize,
}

impl<'a> View for UndefineHiiPackageListIter<'a> {
    type V = Seq<u8>;

    open spec fn view(&self) -> Seq<u8> {
        self.buffer().subrange(self.position(), self.position() + self.remaining())
    }
}

impl<'a> UndefineHiiPackageListIter<'a> {
    /// The buffer that the cursor walks.
    pub closed spec fn buffer(self) -> Seq<u8> {
        self.buf@
    }

    /// The position of the next list in the buffer.
    pub closed spec fn position(self) -> int {
        self.location as int
    }

    /// The number of bytes that remain.
    pub closed spec fn remaining(self) -> int {
        self.size as int
    }

    /// What remains lies inside the buffer.
    pub open spec fn wf(self) -> bool {
        0 <= self.position() && 0 <= self.remaining() && self.position() + self.remaining()
            <= self.buffer().len()
    }

    /// The cursor at the front of the database `start`.
    pub fn new(start: &'a [u8]) -> (r: Self)
        ensures
            r.wf(),
            r.buffer() == start@,
            r.position() == 0,
            r@ == start@,
    {
        let cursor = Self { buf: start, location: 0, size: start.len() };
        proof {
            assert(cursor@ =~= start@);
        }
        cursor
    }

    /// The position of the next list in the buffer.
    pub fn location(&self) -> (r: usize)
        ensures
            r == self.position(),
    {
        self.location
    }

    /// The number of bytes that remain to be walked.
    pub fn size(&self) -> (r: usize)
        ensures
            r == self.remaining(),
    {
        self.size
    }

    /// Yields the next package list and moves past it.
    ///
    /// At the end of the database it yields `None`. A list that does not fit
    /// into what remains, or whose stated size is below that of a header, is
    /// reported, and the cursor then stands at the end.
    pub fn next(&mut self) -> (r: Result<Option<UndefineHiiPackageListHeader<'a>>, HiiError>)
        requires
            old(self).wf(),
        ensures
            final(self).wf(),
            final(self).buffer() == old(self).buffer(),
            match list_step(old(self)@) {
                Ok(Some(size)) => {
                    &&& r matches Ok(Some(list))
                    &&& list.wf()
                    &&& list.buffer() == old(self).buffer()
                    &&& list.position() == old(self).position()
                    &&& list.spec_total_size() == size
                    &&& list@ == old(self)@.take(size)
                    &&& final(self).position() == old(self).position() + size
                    &&& final(self).remaining() == old(self).remaining() - size
                    &&& final(self)@ == old(self)@.skip(size)
                },
                Ok(None) => {
                    &&& r matches Ok(None)
                    &&& final(self).position() == old(self).position()
                    &&& final(self).remaining() == 0
                },
                Err(e) => {
                    &&& r matches Err(f)
                    &&& f == e
                    &&& final(self).position() == old(self).position()
                    &&& final(self).remaining() == 0
                },
            },
    {
        if self.size == 0 {
            return Ok(None);
        }
        proof {
            crate::wire::lemma_len_fits(self.buf);
        }
        if self.size < PACKAGE_LIST_HEADER_SIZE {
            self.size = 0;
            return Err(HiiError::TruncatedBuffer);
        }
        let total: usize = read_u32(self.buf, self.location + 16) as usize;
        assert(u32_at(old(self)@, 16) == total);
        if total < PACKAGE_LIST_HEADER_SIZE {
            self.size = 0;
            return Err(HiiError::InvalidLength);
        }
        if total > self.size {
            self.size = 0;
            return Err(HiiError::TruncatedBuffer);
        }
        let list = UndefineHiiPackageListHeader::at(self.buf, self.location);
        self.location = self.location + total;
        self.size = self.size - total;
        proof {
            assert(list@ =~= old(self)@.take(total as int));
            assert(self@ =~= old(self)@.skip(total as int));
        }
        Ok(Some(list))
    }

    /// Walks to the end and gathers the package lists.
    ///
    /// The result is the lists of `parse_package_lists`, each as a view into
    /// the buffer, or the first defect.
    pub fn collect(self) -> (r: Result<Vec<UndefineHiiPackageListHeader<'a>>, HiiError>)
        requires
            self.wf(),
        ensures
            match parse_package_lists(self@) {
                Ok(lists) => {
                    &&& r matches Ok(found)
                    &&& found@.len() == lists.len()
                    &&& forall|i: int|
                        0 <= i < found@.len() ==> {
                            &&& (#[trigger] found@[i]).wf()
                            &&& found@[i].buffer() == self.buffer()
                            &&& found@[i].position() == self.position() + total_len(lists.take(i))
                            &&& found@[i]@ == lists[i]
                        }
                },
                Err(e) => r matches Err(f) && f == e,
            },
    {
        let mut cursor = self;
        let mut found: Vec<UndefineHiiPackageListHeader<'a>> = Vec::new();
        let ghost mut seen: Seq<Seq<u8>> = Seq::empty();
        loop
            invariant
                cursor.wf(),
                cursor.buffer() == self.buffer(),
                parse_package_lists(self@) == prepend(seen, parse_package_lists(cursor@)),
                found@.len() == seen.len(),
                cursor.position() == self.position() + total_len(seen),
                forall|i: int|
                    0 <= i < found@.len() ==> {
                        &&& (#[trigger] found@[i]).wf()
                        &&& found@[i].buffer() == self.buffer()
                        &&& found@[i].position() == self.position() + total_len(seen.take(i))
                        &&& found@[i]@ == seen[i]
                    },
            decreases cursor.remaining(),
        {
            match cursor.next() {
                Ok(Some(list)) => {
                    proof {
                        lemma_concat_push(seen, list@);
                        assert(seen.take(seen.len() as int) =~= seen);
                        assert forall|i: int| 0 <= i <= seen.len() implies #[trigger] seen.push(
                            list@,
                        ).take(i) == seen.take(i) by {
                            lemma_take_push(seen, list@, i);
                        }
                        lemma_prepend_push(seen, list@, parse_package_lists(cursor@));
                        seen = seen.push(list@);
                    }
                    found.push(list);
                },
                Ok(None) => {
                    proof {
                        assert(seen + Seq::<Seq<u8>>::empty() =~= seen);
                    }
                    return Ok(found);
                },
                Err(e) => {
                    return Err(e);
                },
            }
        }
    }
}

/// The bytes of `packages`, each as a sequence.
pub open spec fn bytes_of(packages: Seq<HiiPackage>) -> Seq<Seq<u8>> {
    Seq::new(packages.len(), |i: int| packages[i]@)
}

/// The package list with the identifier bytes `guid` that holds `packages`:
/// the identifier, the size of the whole list, and the packages one after the
/// other.
pub open spec fn package_list_bytes(guid: Seq<u8>, packages: Seq<Seq<u8>>) -> Seq<u8> {
    guid + u32_bytes(20 + total_len(packages)) + concat(packages)
}

/// Builds the package list with the identifier `guid` that holds `packages`
/// in the order given; `LengthOverflow` when the list would be longer than
/// the size field of its header can state.
///
/// The packages are taken as they are. A list is complete only if the last of
/// them is an end package; none is added here.
pub fn build_package_list(guid: Guid, packages: &Vec<HiiPackage>) -> (r: Result<Vec<u8>, HiiError>)
    ensures
        match r {
            Ok(list) => 20 + total_len(bytes_of(packages@)) <= u32::MAX && list@
                == package_list_bytes(guid_bytes(guid), bytes_of(packages@)),
            Err(e) => 20 + total_len(bytes_of(packages@)) > u32::MAX && e
                == HiiError::LengthOverflow,
        },
{
    let ghost all = bytes_of(packages@);
    let mut body: Vec<u8> = Vec::new();
    let mut i: usize = 0;
    while i < packages.len()
        invariant
            i <= packages@.len(),
            all == bytes_of(packages@),
            body@ == concat(all.take(i as int)),
            body@.len() == total_len(all.take(i as int)),
        decreases packages@.len() - i,
    {
        push_all(&mut body, packages[i].as_slice());
        proof {
            lemma_concat_push(all.take(i as int), all[i as int]);
            assert(all.take(i + 1) =~= all.take(i as int).push(all[i as int]));
        }
        i = i + 1;
    }
    proof {
        assert(all.take(i as int) =~= all);
    }
    if body.len() > u32::MAX as usize - PACKAGE_LIST_HEADER_SIZE {
        return Err(HiiError::LengthOverflow);
    }
    let list_header = EfiHiiPackageListHeader {
        package_list_guid: guid,
        package_length: (body.len() + PACKAGE_LIST_HEADER_SIZE) as u32,
    };
    let mut list_pack: Vec<u8> = list_header.to_bytes();
    push_all(&mut list_pack, body.as_slice());
    Ok(list_pack)
}

/// The packages of `packages` whose type tag is `tag`, in their order.
pub open spec fn of_type(packages: Seq<Seq<u8>>, tag: u8) -> Seq<Seq<u8>>
    decreases packages.len(),
{
    if packages.len() == 0 {
        Seq::empty()
    } else if packages.last()[3] == tag {
        of_type(packages.drop_last(), tag).push(packages.last())
    } else {
        of_type(packages.drop_last(), tag)
    }
}

/// Where the first package list with the identifier bytes `guid` stands among
/// those in `rem`: its offset from the front of `rem`, and its size; `None`
/// when a walk from the front ends or fails before it meets one.
pub open spec fn list_with_guid(rem: Seq<u8>, guid: Seq<u8>) -> Option<(int, int)>
    decreases rem.len(),
{
    match list_step(rem) {
        Ok(Some(size)) => if rem.take(16) == guid {
            Some((0, size))
        } else {
            match list_with_guid(rem.skip(size), guid) {
                Some((offset, found)) => Some((size + offset, found)),
                None => None,
            }
        },
        _ => None,
    }
}

/// What was found `by` bytes further on, seen from here.
pub open spec fn later(found: Option<(int, int)>, by: int) -> Option<(int, int)> {
    match found {
        Some((offset, size)) => Some((by + offset, size)),
        None => None,
    }
}

/// The offsets, from the front of the body that holds `packages`, of those
/// among them whose type tag is `tag`, in their order.
pub open spec fn offsets_of_type(packages: Seq<Seq<u8>>, tag: u8) -> Seq<int>
    decreases packages.len(),
{
    if packages.len() == 0 {
        Seq::empty()
    } else if packages.last()[3] == tag {
        offsets_of_type(packages.drop_last(), tag).push(total_len(packages.drop_last()))
    } else {
        offsets_of_type(packages.drop_last(), tag)
    }
}

impl<'a> UndefineHiiPackageListHeader<'a> {
    /// The packages of the list whose type is that of the view `T`, each seen
    /// as a `T`, in their order; or the first defect that a walk over the
    /// packages of the list meets.
    pub fn get_package<T: PackageHeader<'a>>(&self) -> (r: Result<Vec<T>, HiiError>)
        requires
            self.wf(),
        ensures
            match parse_packages(self.body()) {
                Ok(packages) => {
                    let wanted = of_type(packages, T::PACKAGE_TYPE.spec_tag());
                    &&& r matches Ok(found)
                    &&& found@.len() == wanted.len()
                    &&& forall|i: int|
                        0 <= i < found@.len() ==> {
                            &&& (#[trigger] found@[i]).parts().wf()
                            &&& found@[i].parts().buffer() == self.buffer()
                            &&& found@[i].parts().position() == self.position() + 20
                                + offsets_of_type(packages, T::PACKAGE_TYPE.spec_tag())[i]
                            &&& found@[i].parts()@ == wanted[i]
                        }
                },
                Err(e) => r matches Err(f) && f == e,
            },
    {
        let start = self.into_iter();
        let mut cursor = start;
        let mut found: Vec<T> = Vec::new();
        let ghost tag = T::PACKAGE_TYPE.spec_tag();
        let ghost mut seen: Seq<Seq<u8>> = Seq::empty();
        loop
            invariant
                cursor.wf(),
                cursor.buffer() == self.buffer(),
                tag == T::PACKAGE_TYPE.spec_tag(),
                start@ == self.body(),
                parse_packages(start@) == prepend(seen, parse_packages(cursor@)),
                found@.len() == of_type(seen, tag).len(),
                found@.len() == offsets_of_type(seen, tag).len(),
                cursor.position() == self.position() + 20 + total_len(seen),
                forall|i: int|
                    0 <= i < found@.len() ==> {
                        &&& (#[trigger] found@[i]).parts().wf()
                        &&& found@[i].parts().buffer() == self.buffer()
                        &&& found@[i].parts().position() == self.position() + 20
                            + offsets_of_type(seen, tag)[i]
                        &&& found@[i].parts()@ == of_type(seen, tag)[i]
                    },
            decreases cursor.remaining(),
        {
            match cursor.next() {
                Ok(Some(package)) => {
                    proof {
                        lemma_prepend_push(seen, package@, parse_packages(cursor@));
                        assert(seen.push(package@).drop_last() =~= seen);
                        assert(package@[3] == package.spec_header().pack_type);
                        lemma_concat_push(seen, package@);
                        seen = seen.push(package@);
                    }
                    if package.header().pack_type == T::PACKAGE_TYPE.tag() {
                        found.push(T::from_undef(&package));
                    }
                },
                Ok(None) => {
                    proof {
                        assert(seen + Seq::<Seq<u8>>::empty() =~= seen);
                    }
                    return Ok(found);
                },
                Err(e) => {
                    return Err(e);
                },
            }
        }
    }
}

impl<'a> UndefineHiiPackageListIter<'a> {
    /// The first package list with the identifier `guid` that the cursor has
    /// before it.
    ///
    /// `None` stands for "not found": no such list before the end of the
    /// database or before a defect.
    pub fn find(&self, guid: &Guid) -> (r: Option<UndefineHiiPackageListHeader<'a>>)
        requires
            self.wf(),
        ensures
            match list_with_guid(self@, guid_bytes(*guid)) {
                Some((offset, size)) => {
                    &&& r matches Some(found)
                    &&& found.wf()
                    &&& found.buffer() == self.buffer()
                    &&& found.position() == self.position() + offset
                    &&& found.spec_total_size() == size
                    &&& found@ == self@.subrange(offset, offset + size)
                    &&& found@.take(16) == guid_bytes(*guid)
                },
                None => r is None,
            },
    {
        let wanted: [u8; 16] = guid.to_bytes();
        let mut cursor = *self;
        let ghost whole = self@;
        let ghost id = guid_bytes(*guid);
        let ghost mut by: int = 0;
        proof {
            assert(whole.skip(0) =~= whole);
        }
        loop
            invariant
                cursor.wf(),
                cursor.buffer() == self.buffer(),
                whole == self@,
                id == guid_bytes(*guid),
                wanted@ == id,
                0 <= by <= whole.len(),
                cursor.position() == self.position() + by,
                cursor@ == whole.skip(by),
                list_with_guid(whole, id) == later(list_with_guid(whole.skip(by), id), by),
            decreases cursor.remaining(),
        {
            match cursor.next() {
                Ok(Some(list)) => {
                    let here: [u8; 16] = list.header().package_list_guid.to_bytes();
                    proof {
                        lemma_find_step(whole, by, list.spec_total_size(), id);
                    }
                    if crate::wire::bytes_equal(here.as_slice(), wanted.as_slice()) {
                        return Some(list);
                    }
                    proof {
                        by = by + list.spec_total_size();
                    }
                },
                _ => {
                    return None;
                },
            }
        }
    }
}

/// One step of the search for a package list: where a list of `size` bytes
/// stands `by` bytes into `whole`, the bytes of that list and those behind it
/// are ranges of `whole`, and the search from there either ends at that list
/// or goes on behind it.
proof fn lemma_find_step(whole: Seq<u8>, by: int, size: int, guid: Seq<u8>)
    requires
        0 <= by <= whole.len(),
        list_step(whole.skip(by)) == Ok::<Option<int>, HiiError>(Some(size)),
    ensures
        by + size <= whole.len(),
        whole.skip(by).take(size) == whole.subrange(by, by + size),
        whole.skip(by).take(size).take(16) == whole.skip(by).take(16),
        whole.skip(by).skip(size) == whole.skip(by + size),
        later(list_with_guid(whole.skip(by), guid), by) == if whole.skip(by).take(16) == guid {
            Some((by, size))
        } else {
            later(list_with_guid(whole.skip(by + size), guid), by + size)
        },
{
    let rem = whole.skip(by);
    assert(rem.take(size) =~= whole.subrange(by, by + size));
    assert(rem.take(size).take(16) =~= rem.take(16));
    assert(rem.skip(size) =~= whole.skip(by + size));
}

/// In a package list whose packages can be walked to the end, the lengths
/// that the headers of the packages state add up to the size that the header
/// of the list states, less the twenty bytes of that header.
pub proof fn lemma_package_lengths_sum(list: UndefineHiiPackageListHeader)
    requires
        list.wf(),
        parse_packages(list.body()) is Ok,
    ensures
        total_stated_len(parse_packages(list.body())->Ok_0) == list.spec_total_size() - 20,
{
    lemma_packages_fill_body(list.body());
}

/// Whole packages that stand one after the other are found again by a walk,
/// each as it was and in the same order.
pub proof fn lemma_parse_concat(packages: Seq<Seq<u8>>)
    requires
        forall|i: int| 0 <= i < packages.len() ==> is_package_bytes(#[trigger] packages[i]),
    ensures
        parse_packages(concat(packages)) == Ok::<Seq<Seq<u8>>, HiiError>(packages),
    decreases packages.len(),
{
    let body = concat(packages);
    if packages.len() == 0 {
        assert(parse_packages(body).unwrap() =~= packages);
    } else {
        let first = packages[0];
        let rest = packages.skip(1);
        assert forall|i: int| 0 <= i < rest.len() implies is_package_bytes(#[trigger] rest[i]) by {
            assert(rest[i] == packages[i + 1]);
        }
        lemma_parse_concat(rest);
        assert(crate::wire::u24_at(body, 0) == crate::wire::u24_at(first, 0));
        assert(body.take(first.len() as int) =~= first);
        assert(body.skip(first.len() as int) =~= concat(rest));
        assert(seq![first] + rest =~= packages);
    }
}

/// A package list built from whole packages is read back as it was built: a
/// walk over the built bytes finds one list, which is all of them; the header
/// of that list holds the identifier and the size of the list; and a walk over
/// the body of the list finds the packages that were supplied, byte for byte
/// and in their order.
pub proof fn lemma_built_list_decodes(guid: Seq<u8>, packages: Seq<Seq<u8>>)
    requires
        guid.len() == 16,
        forall|i: int| 0 <= i < packages.len() ==> is_package_bytes(#[trigger] packages[i]),
        20 + total_len(packages) <= u32::MAX,
    ensures
        ({
            let list = package_list_bytes(guid, packages);
            &&& is_package_list_bytes(list)
            &&& parse_package_lists(list) == Ok::<Seq<Seq<u8>>, HiiError>(seq![list])
            &&& list.take(16) == guid
            &&& u32_at(list, 16) == 20 + total_len(packages)
            &&& parse_packages(list.skip(20)) == Ok::<Seq<Seq<u8>>, HiiError>(packages)
        }),
{
    let list = package_list_bytes(guid, packages);
    let size = 20 + total_len(packages);
    lemma_total_len_bounds(packages);
    lemma_parse_concat(packages);
    crate::wire::lemma_read_written(size);
    assert(list.subrange(16, 20) =~= u32_bytes(size));
    assert(u32_at(list, 16) == u32_at(u32_bytes(size), 0));
    assert(list.take(16) =~= guid);
    assert(list.skip(20) =~= concat(packages));
    assert(list.take(size) =~= list);
    assert(list.skip(size) =~= Seq::<u8>::empty());
    assert(parse_package_lists(list.skip(size)) == Ok::<Seq<Seq<u8>>, HiiError>(Seq::empty()));
    assert(seq![list] + Seq::<Seq<u8>>::empty() =~= seq![list]);
}

} // verus!
