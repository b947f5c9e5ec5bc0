//! The decisions of the object-store handler: how a URL names a bucket and a
//! key, how the store's answers map to failures, and how much of the object
//! each fault reads. The requests themselves are made by the caller.
use crate::dummy::{capped_read_len, fault_read_len};
use crate::heuristics::{
    evicted_from, lemma_readahead_at_least_page, page_range, queue_after_eviction, readahead_spec,
    PageHeuristics, MAX_LOADED_PAGES, READAHEAD_MARGIN,
};
use crate::pages::PAGE_SIZE;
use std::collections::BTreeSet;
use vstd::prelude::*;
use vstd::string::*;

verus! {

/// Why an object could not be mapped or a fault could not be served.
#[derive(Debug, Clone, Copy, PartialEq, Eq, Structural, PartialOrd, Ord)]
pub enum S3Failure {
    /// The URL is not of the form `s3://bucket/key`.
    InvalidS3Url,
    /// The object's metadata gave no length.
    ContentLengthNotReturned,
    /// A ranged read came back without a body.
    NoBodyReturned,
    /// The bucket's region name is not understood.
    ParseRegionError,
    /// The object does not exist.
    S3NotFound,
    /// Access was denied.
    S3PermissionError,
    /// Reading the response failed.
    IOError,
    /// Anything else.
    Unknown,
    /// A ranged read returned fewer or more bytes than asked for.
    PartialRead,
}

/// The failure for an HTTP status that the store answered with.
pub open spec fn status_failure(status: u16) -> S3Failure {
    if status == 403 {
        S3Failure::S3PermissionError
    } else if status == 404 {
        S3Failure::S3NotFound
    } else {
        S3Failure::Unknown
    }
}

impl S3Failure {
    /// The failure for an unrecognised answer with HTTP status `status`:
    /// 403 is a permission error, 404 a missing object.
    pub fn from_status(status: u16) -> (r: S3Failure)
        ensures
            r == status_failure(status),
    {
        if status == 403 {
            S3Failure::S3PermissionError
        } else if status == 404 {
            S3Failure::S3NotFound
        } else {
            S3Failure::Unknown
        }
    }
}

/// `s3://`
pub open spec fn s3_prefix() -> Seq<char> {
    seq!['s', '3', ':', '/', '/']
}

/// Whether `url` is `s3://` followed by `bucket`, a slash and `key`, with a
/// non-empty bucket free of slashes and a non-empty key free of line feeds.
pub open spec fn is_s3_split(url: Seq<char>, bucket: Seq<char>, key: Seq<char>) -> bool {
    &&& url == s3_prefix() + bucket + seq!['/'] + key
    &&& bucket.len() > 0
    &&& !bucket.contains('/')
    &&& key.len() > 0
    &&& !key.contains('\n')
}

proof fn lemma_split_shape(url: Seq<char>, bucket: Seq<char>, key: Seq<char>)
    requires
        is_s3_split(url, bucket, key),
    ensures
        url.len() == 6 + bucket.len() + key.len(),
        forall|i: int| 0 <= i < 5 ==> url[i] == s3_prefix()[i],
        url[5 + bucket.len() as int] == '/',
        forall|i: int| 5 <= i < 5 + bucket.len() ==> url[i] != '/',
        forall|i: int| 6 + bucket.len() <= i < url.len() ==> url[i] != '\n',
{
    let b: int = bucket.len() as int;
    assert forall|i: int| 0 <= i < 5 implies url[i] == s3_prefix()[i] by {
        assert(url[i] == (s3_prefix() + bucket + seq!['/'])[i]);
        assert((s3_prefix() + bucket + seq!['/'])[i] == (s3_prefix() + bucket)[i]);
    }
    assert(url[5 + b] == (s3_prefix() + bucket + seq!['/'])[5 + b]);
    assert forall|i: int| 5 <= i < 5 + b implies url[i] != '/' by {
        assert(url[i] == (s3_prefix() + bucket + seq!['/'])[i]);
        assert((s3_prefix() + bucket + seq!['/'])[i] == (s3_prefix() + bucket)[i]);
        assert((s3_prefix() + bucket)[i] == bucket[i - 5]);
    }
    assert forall|i: int| 6 + b <= i < url.len() implies url[i] != '\n' by {
        assert(url[i] == key[i - 6 - b]);
    }
}

/// Splits an `s3://bucket/key` URL into its bucket and key.
pub fn split_s3_url(url: &str) -> (r: Option<(String, String)>)
    ensures
        match r {
            Some((bucket, key)) => is_s3_split(url@, bucket@, key@),
            None => forall|b: Seq<char>, k: Seq<char>| !is_s3_split(url@, b, k),
        },
{
    let n: usize = url.unicode_len();
    let ghost u = url@;
    if n < 6 || url.get_char(0) != 's' || url.get_char(1) != '3' || url.get_char(2) != ':'
        || url.get_char(3) != '/' || url.get_char(4) != '/' {
        proof {
            assert forall|b: Seq<char>, k: Seq<char>| !is_s3_split(u, b, k) by {
                if is_s3_split(u, b, k) {
                    lemma_split_shape(u, b, k);
                }
            }
        }
        return None;
    }
    let mut j: usize = 5;
    while j < n && url.get_char(j) != '/'
        invariant
            n == u.len(),
            u == url@,
            5 <= j <= n,
            forall|t: int| 5 <= t < j ==> u[t] != '/',
        decreases n - j,
    {
        j = j + 1;
    }
    if j == n || j == 5 || j + 1 == n {
        proof {
            assert forall|b: Seq<char>, k: Seq<char>| !is_s3_split(u, b, k) by {
                if is_s3_split(u, b, k) {
                    lemma_split_shape(u, b, k);
                    if j < 5 + b.len() {
                        assert(u[j as int] == '/');
                    }
                }
            }
        }
        return None;
    }
    let mut t: usize = j + 1;
    while t < n
        invariant
            n == u.len(),
            u == url@,
            j + 1 <= t <= n,
            5 < j,
            u[j as int] == '/',
            forall|v: int| 5 <= v < j ==> u[v] != '/',
            forall|v: int| j + 1 <= v < t ==> u[v] != '\n',
        decreases n - t,
    {
        if url.get_char(t) == '\n' {
            proof {
                assert forall|b: Seq<char>, k: Seq<char>| !is_s3_split(u, b, k) by {
                    if is_s3_split(u, b, k) {
                        lemma_split_shape(u, b, k);
                        if j < 5 + b.len() {
                            assert(u[j as int] == '/');
                        }
                        if j > 5 + b.len() {
                            assert(u[5 + b.len() as int] == '/');
                        }
                    }
                }
            }
            return None;
        }
        t = t + 1;
    }
    let bucket = url.substring_char(5, j).to_owned();
    let key = url.substring_char(j + 1, n).to_owned();
    proof {
        assert(u =~= s3_prefix() + bucket@ + seq!['/'] + key@);
        assert(!bucket@.contains('/')) by {
            if bucket@.contains('/') {
                let i = choose|i: int| 0 <= i < bucket@.len() && bucket@[i] == '/';
                assert(u[i + 5] == '/');
            }
        }
        assert(!key@.contains('\n')) by {
            if key@.contains('\n') {
                let i = choose|i: int| 0 <= i < key@.len() && key@[i] == '\n';
                assert(u[i + j + 1] == '\n');
            }
        }
    }
    Some((bucket, key))
}

/// The size of an object whose metadata gave `content_length` (an empty
/// object has size 0; the region reserved for it is still one page); a
/// negative length, or one too large to map here, is refused.
pub open spec fn object_size_for(content_length: Option<i64>) -> Result<usize, S3Failure> {
    match content_length {
        None => Err(S3Failure::ContentLengthNotReturned),
        Some(n) => if n < 0 || n > usize::MAX - READAHEAD_MARGIN {
            Err(S3Failure::Unknown)
        } else {
            Ok(n as usize)
        },
    }
}

/// Checks the body of a ranged read of `len` bytes.
pub fn check_body(len: usize, body: Option<Vec<u8>>) -> (r: Result<Vec<u8>, S3Failure>)
    ensures
        match body {
            None => r == Err::<Vec<u8>, S3Failure>(S3Failure::NoBodyReturned),
            Some(v) => if v@.len() == len {
                r matches Ok(w) && w@ == v@
            } else {
                r == Err::<Vec<u8>, S3Failure>(S3Failure::PartialRead)
            },
        },
{
    match body {
        None => Err(S3Failure::NoBodyReturned),
        Some(v) => if v.len() == len {
            Ok(v)
        } else {
            Err(S3Failure::PartialRead)
        },
    }
}

/// What the object-store handler knows of one mapped object.
pub struct MMapS3State {
    bucket_name: String,
    key_name: String,
    s3objectsize: usize,
    heuristics: PageHeuristics,
}

impl MMapS3State {
    pub closed spec fn spec_bucket(&self) -> Seq<char> {
        self.bucket_name@
    }

    pub closed spec fn spec_key(&self) -> Seq<char> {
        self.key_name@
    }

    pub closed spec fn spec_size(&self) -> usize {
        self.s3objectsize
    }

    pub closed spec fn heuristics(&self) -> PageHeuristics {
        self.heuristics
    }

    pub open spec fn wf(&self) -> bool {
        &&& self.heuristics().wf()
        &&& self.spec_size() + READAHEAD_MARGIN <= usize::MAX
    }

    /// The state of a freshly mapped object, sized from its metadata.
    pub fn new(bucket_name: String, key_name: String, content_length: Option<i64>) -> (r: Result<
        MMapS3State,
        S3Failure,
    >)
        ensures
            match object_size_for(content_length) {
                Ok(n) => r matches Ok(st) && {
                    &&& st.wf()
                    &&& st.spec_size() == n
                    &&& st.spec_bucket() == bucket_name@
                    &&& st.spec_key() == key_name@
                    &&& st.heuristics().queue() == Seq::<usize>::empty()
                    &&& st.heuristics().resident_pages() == Set::<usize>::empty()
                },
                Err(e) => r == Err::<MMapS3State, S3Failure>(e),
            },
    {
        let n: i64 = match content_length {
            None => return Err(S3Failure::ContentLengthNotReturned),
            Some(n) => n,
        };
        if n < 0 || n as u64 > (usize::MAX - READAHEAD_MARGIN) as u64 {
            return Err(S3Failure::Unknown);
        }
        let size: usize = n as usize;
        let heuristics = PageHeuristics::new();
        let st = MMapS3State { bucket_name, key_name, s3objectsize: size, heuristics };
        assert(st.heuristics().resident_pages() =~= Set::<usize>::empty());
        Ok(st)
    }

    pub fn bucket_name(&self) -> (r: &str)
        ensures
            r@ == self.spec_bucket(),
    {
        self.bucket_name.as_str()
    }

    pub fn key_name(&self) -> (r: &str)
        ensures
            r@ == self.spec_key(),
    {
        self.key_name.as_str()
    }

    pub fn object_size(&self) -> (r: usize)
        ensures
            r == self.spec_size(),
    {
        self.s3objectsize
    }

    /// For a fault at byte `offset`, the number of bytes to fetch: the
    /// recommendation of the heuristics for a one-page minimum, capped at
    /// the end of the object. The second result is that length rounded up
    /// to whole pages, the size of the buffer that receives it.
    pub fn plan_fault(&mut self, offset: usize) -> (r: (usize, usize))
        requires
            old(self).wf(),
            offset < old(self).spec_size(),
        ensures
            *final(self) == *old(self),
            ({
                let h = old(self).heuristics();
                let ra: int = readahead_spec(h.level1(), h.level2(), offset, PAGE_SIZE);
                &&& r.0 == (if offset + ra > old(self).spec_size() {
                    old(self).spec_size() - offset
                } else {
                    ra
                })
                &&& r.1 == fault_read_len(offset as int, old(self).spec_size() as int, ra)
            }),
            1 <= r.0 <= old(self).spec_size() - offset,
            r.0 <= r.1,
            r.1 % PAGE_SIZE == 0,
    {
        let recommended: usize = self.heuristics.readahead_heuristic(offset, PAGE_SIZE);
        proof {
            lemma_readahead_at_least_page(self.heuristics.level1(), self.heuristics.level2(), offset);
        }
        let len: usize = if recommended > self.s3objectsize - offset {
            self.s3objectsize - offset
        } else {
            recommended
        };
        let page_len: usize = capped_read_len(offset, self.s3objectsize, recommended);
        (len, page_len)
    }

    /// Records the `page_len` bytes installed at `offset` as resident, and
    /// evicts the oldest pages if too many are; returns the evicted pages.
    pub fn record_fault(&mut self, offset: usize, page_len: usize) -> (evictions: BTreeSet<usize>)
        requires
            old(self).wf(),
            offset + page_len <= usize::MAX,
        ensures
            final(self).wf(),
            final(self).spec_size() == old(self).spec_size(),
            final(self).spec_bucket() == old(self).spec_bucket(),
            final(self).spec_key() == old(self).spec_key(),
            final(self).heuristics().resident_pages().len() <= MAX_LOADED_PAGES,
            ({
                let h = old(self).heuristics();
                let first: usize = (offset / PAGE_SIZE) as usize;
                let last: usize = ((offset + page_len) / PAGE_SIZE as int) as usize;
                let q1 = h.queue() + page_range(first, last);
                &&& evictions@ == evicted_from(q1)
                &&& final(self).heuristics().queue() == queue_after_eviction(q1)
                &&& forall|p: usize|
                    #[trigger] final(self).heuristics().is_loaded(p) <==> ((h.is_loaded(p)
                        || first <= p < last) && !evictions@.contains(p))
            }),
    {
        let evictions = self.heuristics.record_pages(
            offset / PAGE_SIZE,
            (offset + page_len) / PAGE_SIZE,
        );
        evictions
    }
}

} // verus!
