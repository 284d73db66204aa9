use vstd::prelude::*;

use crate::seqs::{first_index, lemma_first_index, lemma_first_index_at};
use crate::strs::{
    append_decimal, decimal_text, eq_ignore_ascii_case, lemma_decimal_text_parses,
    lemma_eq_ignore_ascii_case_reflexive, lemma_eq_ignore_ascii_case_symmetric,
    lemma_eq_ignore_ascii_case_transitive, parse_u64, str_eq_ignore_ascii_case, str_parse_u64,
};
use vstd::string::StringExecFns;

verus! {

/// An HTTP request method.
#[derive(Copy, Clone, PartialEq, Eq, Debug, Structural)]
pub enum Method {
    Delete,
    Get,
    Head,
    Post,
    Put,
    Connect,
    Options,
    Trace,
    Copy,
    Lock,
    MkCol,
    Move,
    Propfind,
    Proppatch,
    Search,
    Unlock,
    Bind,
    Rebind,
    Unbind,
    Acl,
    Report,
    MkActivity,
    Checkout,
    Merge,
    MSearch,
    Notify,
    Subscribe,
    Unsubscribe,
    Patch,
    Purge,
    MkCalendar,
    Link,
    Unlink,
}

/// Why a header could not be stored.
#[derive(Debug, Clone, Copy, PartialEq, Eq, Structural)]
pub enum HeaderSetError {
    TooManyHeaders,
}

/// A header table seen as its slots: (name, value) pairs, an empty name marking a free slot.
pub type HeaderSlots = Seq<(Seq<char>, Seq<char>)>;

/// The slots of a sequence of string pairs.
pub open spec fn pairs_view<'b>(s: Seq<(&'b str, &'b str)>) -> HeaderSlots {
    s.map_values(|e: (&'b str, &'b str)| (e.0@, e.1@))
}

/// A slot that is in use and whose name matches `name` regardless of ASCII case.
pub open spec fn get_pred(name: Seq<char>) -> spec_fn((Seq<char>, Seq<char>)) -> bool {
    |e: (Seq<char>, Seq<char>)| e.0.len() > 0 && eq_ignore_ascii_case(name, e.0)
}

/// A slot that a header named `name` may be stored into: a free one or one with that name.
pub open spec fn set_pred(name: Seq<char>) -> spec_fn((Seq<char>, Seq<char>)) -> bool {
    |e: (Seq<char>, Seq<char>)| e.0.len() == 0 || eq_ignore_ascii_case(e.0, name)
}

/// A slot whose name matches `name` regardless of ASCII case (a free slot matches the empty name).
pub open spec fn remove_pred(name: Seq<char>) -> spec_fn((Seq<char>, Seq<char>)) -> bool {
    |e: (Seq<char>, Seq<char>)| eq_ignore_ascii_case(e.0, name)
}

/// A free slot.
pub open spec fn free_pred() -> spec_fn((Seq<char>, Seq<char>)) -> bool {
    |e: (Seq<char>, Seq<char>)| e.0.len() == 0
}

/// The value of the first header in use whose name matches `name`.
pub open spec fn spec_get(h: HeaderSlots, name: Seq<char>) -> Option<Seq<char>> {
    match first_index(h, get_pred(name)) {
        Some(i) => Some(h[i].1),
        None => None,
    }
}

/// The table after storing `(name, value)` into the first free slot or the first slot with
/// that name, whichever comes first; none when there is no such slot.
pub open spec fn spec_try_set(h: HeaderSlots, name: Seq<char>, value: Seq<char>) -> Option<
    HeaderSlots,
> {
    match first_index(h, set_pred(name)) {
        Some(i) => Some(h.update(i, (name, value))),
        None => None,
    }
}

/// The table after removing the first slot whose name matches `name`: the later slots move
/// one place up and a free slot closes the table.
pub open spec fn spec_remove(h: HeaderSlots, name: Seq<char>) -> HeaderSlots {
    match first_index(h, remove_pred(name)) {
        Some(i) => h.take(i) + h.skip(i + 1) + seq![(Seq::<char>::empty(), Seq::<char>::empty())],
        None => h,
    }
}

/// The slots before the first free one.
pub open spec fn spec_as_slice(h: HeaderSlots) -> HeaderSlots {
    match first_index(h, free_pred()) {
        Some(i) => h.take(i),
        None => h,
    }
}

/// The slots in use, in order.
pub open spec fn spec_in_use(h: HeaderSlots) -> HeaderSlots {
    h.filter(|e: (Seq<char>, Seq<char>)| e.0.len() > 0)
}

/// A well-formed table: the slots in use come first, and no two of them carry names that
/// match regardless of ASCII case.
pub open spec fn slots_wf(h: HeaderSlots) -> bool {
    &&& forall|i: int, j: int|
        0 <= i < j < h.len() && (#[trigger] h[j]).0.len() > 0 ==> (#[trigger] h[i]).0.len() > 0
    &&& forall|i: int, j: int|
        0 <= i < h.len() && 0 <= j < h.len() && i != j && (#[trigger] h[i]).0.len() > 0 && (
        #[trigger] h[j]).0.len() > 0 ==> !eq_ignore_ascii_case(h[i].0, h[j].0)
}

/// A fixed-capacity table of `N` HTTP headers borrowed for `'b`.
#[derive(Debug)]
pub struct Headers<'b, const N: usize> {
    slots: Vec<(&'b str, &'b str)>,
}

impl<'b, const N: usize> Headers<'b, N> {
    /// The slots of the table.
    pub closed spec fn view(&self) -> HeaderSlots {
        pairs_view(self.slots@)
    }

    /// The table has `N` slots and is well formed.
    pub open spec fn wf(&self) -> bool {
        &&& self.view().len() == N
        &&& slots_wf(self.view())
    }

    /// An empty table.
    pub fn new() -> (r: Self)
        ensures
            r.wf(),
            r.view() == Seq::new(N as nat, |i: int| (Seq::<char>::empty(), Seq::<char>::empty())),
    {
        let mut slots: Vec<(&'b str, &'b str)> = Vec::new();
        let mut i: usize = 0;
        while i < N
            invariant
                i <= N,
                slots@.len() == i,
                forall|j: int| 0 <= j < i ==> (#[trigger] slots@[j]).0@ =~= Seq::<char>::empty() && slots@[j].1@ =~= Seq::<char>::empty(),
            decreases N - i,
        {
            proof {
                reveal_strlit("");
            }
            slots.push(("", ""));
            i += 1;
        }
        let r = Headers { slots };
        assert(r.view() =~= Seq::new(N as nat, |i: int| (Seq::<char>::empty(), Seq::<char>::empty())));
        r
    }

    /// The value of the `Content-Length` header, read as a decimal number.
    pub fn content_len(&self) -> (r: Option<u64>)
        requires
            spec_get(self.view(), "Content-Length"@) matches Some(v) ==> parse_u64(v) is Some,
        ensures
            r == (match spec_get(self.view(), "Content-Length"@) {
                Some(v) => parse_u64(v),
                None => None::<u64>,
            }),
    {
        match self.get("Content-Length") {
            Some(v) => {
                let n = str_parse_u64(v);
                Some(n.unwrap())
            },
            None => None,
        }
    }

    /// The value of the `Content-Type` header.
    pub fn content_type(&self) -> (r: Option<&str>)
        ensures
            r is Some == spec_get(self.view(), "Content-Type"@) is Some,
            r matches Some(v) ==> spec_get(self.view(), "Content-Type"@) == Some(v@),
    {
        self.get("Content-Type")
    }

    /// The value of the `Content-Encoding` header.
    pub fn content_encoding(&self) -> (r: Option<&str>)
        ensures
            r is Some == spec_get(self.view(), "Content-Encoding"@) is Some,
            r matches Some(v) ==> spec_get(self.view(), "Content-Encoding"@) == Some(v@),
    {
        self.get("Content-Encoding")
    }

    /// The value of the `Transfer-Encoding` header.
    pub fn transfer_encoding(&self) -> (r: Option<&str>)
        ensures
            r is Some == spec_get(self.view(), "Transfer-Encoding"@) is Some,
            r matches Some(v) ==> spec_get(self.view(), "Transfer-Encoding"@) == Some(v@),
    {
        self.get("Transfer-Encoding")
    }

    /// The value of the `Host` header.
    pub fn host(&self) -> (r: Option<&str>)
        ensures
            r is Some == spec_get(self.view(), "Host"@) is Some,
            r matches Some(v) ==> spec_get(self.view(), "Host"@) == Some(v@),
    {
        self.get("Host")
    }

    /// The value of the `Connection` header.
    pub fn connection(&self) -> (r: Option<&str>)
        ensures
            r is Some == spec_get(self.view(), "Connection"@) is Some,
            r matches Some(v) ==> spec_get(self.view(), "Connection"@) == Some(v@),
    {
        self.get("Connection")
    }

    /// The value of the `Cache-Control` header.
    pub fn cache_control(&self) -> (r: Option<&str>)
        ensures
            r is Some == spec_get(self.view(), "Cache-Control"@) is Some,
            r matches Some(v) ==> spec_get(self.view(), "Cache-Control"@) == Some(v@),
    {
        self.get("Cache-Control")
    }

    /// The value of the `Upgrade` header.
    pub fn upgrade(&self) -> (r: Option<&str>)
        ensures
            r is Some == spec_get(self.view(), "Upgrade"@) is Some,
            r matches Some(v) ==> spec_get(self.view(), "Upgrade"@) == Some(v@),
    {
        self.get("Upgrade")
    }

    /// The headers in use, in order.
    pub fn iter(&self) -> (r: Vec<(&str, &str)>)
        ensures
            pairs_view(r@) == spec_in_use(self.view()),
    {
        let mut r: Vec<(&str, &str)> = Vec::new();
        let mut i: usize = 0;
        while i < self.slots.len()
            invariant
                i <= self.slots@.len(),
                pairs_view(r@) == spec_in_use(self.view().take(i as int)),
            decreases self.slots@.len() - i,
        {
            let e = self.slots[i];
            proof {
                assert(self.view().take(i + 1).drop_last() =~= self.view().take(i as int));
                reveal(Seq::filter);
            }
            if !e.0.is_empty() {
                r.push(e);
                assert(pairs_view(r@) =~= spec_in_use(self.view().take(i + 1)));
            } else {
                assert(pairs_view(r@) =~= spec_in_use(self.view().take(i + 1)));
            }
            i += 1;
        }
        assert(self.view().take(i as int) =~= self.view());
        r
    }

    /// The value of the first header in use whose name matches `name` regardless of ASCII case.
    pub fn get(&self, name: &str) -> (r: Option<&str>)
        ensures
            r is Some == spec_get(self.view(), name@) is Some,
            r matches Some(v) ==> spec_get(self.view(), name@) == Some(v@),
    {
        let mut i: usize = 0;
        while i < self.slots.len()
            invariant
                i <= self.slots@.len(),
                forall|j: int| 0 <= j < i ==> !(#[trigger] get_pred(name@)(self.view()[j])),
            decreases self.slots@.len() - i,
        {
            let e = self.slots[i];
            if !e.0.is_empty() && str_eq_ignore_ascii_case(name, e.0) {
                proof {
                    lemma_first_index_at(self.view(), get_pred(name@), i as int);
                }
                return Some(e.1);
            }
            i += 1;
        }
        proof {
            lemma_first_index_at(self.view(), get_pred(name@), i as int);
        }
        None
    }

    /// Stores `(name, value)` into the first free slot or the first slot with that name,
    /// whichever comes first; fails when the table has no such slot.
    pub fn try_set(&mut self, name: &'b str, value: &'b str) -> (r: Result<&mut Self, HeaderSetError>)
        requires
            old(self).wf(),
        ensures
            r is Ok == spec_try_set(old(self).view(), name@, value@) is Some,
            r matches Ok(t) ==> {
                &&& t.wf()
                &&& Some(t.view()) == spec_try_set(old(self).view(), name@, value@)
                &&& *final(self) == *final(t)
            },
            r matches Err(e) ==> e == HeaderSetError::TooManyHeaders && *final(self) == *old(self),
    {
        let mut i: usize = 0;
        while i < self.slots.len()
            invariant
                i <= self.slots@.len(),
                self.wf(),
                *self == *old(self),
                forall|j: int| 0 <= j < i ==> !(#[trigger] set_pred(name@)(self.view()[j])),
            decreases self.slots@.len() - i,
        {
            let e = self.slots[i];
            if e.0.is_empty() || str_eq_ignore_ascii_case(e.0, name) {
                proof {
                    lemma_first_index_at(self.view(), set_pred(name@), i as int);
                    lemma_try_set_wf(self.view(), name@, value@);
                }
                self.slots.set(i, (name, value));
                assert(self.view() =~= old(self).view().update(i as int, (name@, value@)));
                return Ok(self);
            }
            i += 1;
        }
        proof {
            lemma_first_index_at(self.view(), set_pred(name@), i as int);
        }
        Err(HeaderSetError::TooManyHeaders)
    }

    /// Stores `(name, value)` as `try_set` does; the table must have room for it.
    pub fn set(&mut self, name: &'b str, value: &'b str) -> (r: &mut Self)
        requires
            old(self).wf(),
            spec_try_set(old(self).view(), name@, value@) is Some,
        ensures
            r.wf(),
            Some(r.view()) == spec_try_set(old(self).view(), name@, value@),
            *final(self) == *final(r),
    {
        self.try_set(name, value).expect("No space left")
    }

    /// Removes the first header whose name matches `name` regardless of ASCII case.
    pub fn remove(&mut self, name: &str) -> (r: &mut Self)
        requires
            old(self).wf(),
        ensures
            r.wf(),
            r.view() == spec_remove(old(self).view(), name@),
            *final(self) == *final(r),
    {
        let mut i: usize = 0;
        let n = self.slots.len();
        let mut found = false;
        while i < n && !found
            invariant
                n == self.slots@.len(),
                i <= n,
                self.wf(),
                *self == *old(self),
                found ==> i < n && remove_pred(name@)(self.view()[i as int]),
                forall|j: int| 0 <= j < i ==> !(#[trigger] remove_pred(name@)(self.view()[j])),
            decreases n - i + (if found { 0int } else { 1int }),
        {
            if str_eq_ignore_ascii_case(self.slots[i].0, name) {
                found = true;
            } else {
                i += 1;
            }
        }
        proof {
            lemma_first_index_at(self.view(), remove_pred(name@), i as int);
        }
        if i < n {
            let ghost h = self.view();
            let ghost hs = self.slots@;
            let mut k: usize = i;
            while k < n - 1
                invariant
                    n == self.slots@.len(),
                    n == hs.len(),
                    h == pairs_view(hs),
                    i <= k < n,
                    forall|j: int| 0 <= j < i ==> self.slots@[j] == hs[j],
                    forall|j: int| i <= j < k ==> self.slots@[j] == hs[j + 1],
                    forall|j: int| k <= j < n ==> self.slots@[j] == hs[j],
                decreases n - k,
            {
                let next = self.slots[k + 1];
                self.slots.set(k, next);
                k += 1;
            }
            proof {
                reveal_strlit("");
            }
            self.slots.set(k, ("", ""));
            proof {
                let e = (Seq::<char>::empty(), Seq::<char>::empty());
                assert(""@ =~= Seq::<char>::empty());
                assert(self.view() =~= h.take(i as int) + h.skip(i + 1) + seq![e]) by {
                    assert forall|j: int| 0 <= j < n implies #[trigger] self.view()[j] == (
                    h.take(i as int) + h.skip(i + 1) + seq![e])[j] by {
                        if j < i {
                        } else if j < n - 1 {
                        } else {
                        }
                    }
                }
                lemma_remove_wf(h, name@);
            }
        }
        self
    }

    /// Stores the `Content-Length` header: the decimal text of `content_len`, written into
    /// `buf`, which the table then borrows.
    pub fn set_content_len(&mut self, content_len: u64, buf: &'b mut String) -> (r: &mut Self)
        requires
            old(self).wf(),
            spec_try_set(old(self).view(), "Content-Length"@, decimal_text(content_len as nat)) is Some,
        ensures
            r.wf(),
            Some(r.view()) == spec_try_set(old(self).view(), "Content-Length"@, decimal_text(content_len as nat)),
            *final(self) == *final(r),
    {
        *buf = String::new();
        append_decimal(buf, content_len);
        let text: &'b String = buf;
        assert(text@ =~= decimal_text(content_len as nat));
        self.set("Content-Length", text.as_str())
    }

    /// Stores the `Content-Type` header.
    pub fn set_content_type(&mut self, content_type: &'b str) -> (r: &mut Self)
        requires
            old(self).wf(),
            spec_try_set(old(self).view(), "Content-Type"@, content_type@) is Some,
        ensures
            r.wf(),
            Some(r.view()) == spec_try_set(old(self).view(), "Content-Type"@, content_type@),
            *final(self) == *final(r),
    {
        self.set("Content-Type", content_type)
    }

    /// Stores the `Content-Encoding` header.
    pub fn set_content_encoding(&mut self, content_encoding: &'b str) -> (r: &mut Self)
        requires
            old(self).wf(),
            spec_try_set(old(self).view(), "Content-Encoding"@, content_encoding@) is Some,
        ensures
            r.wf(),
            Some(r.view()) == spec_try_set(old(self).view(), "Content-Encoding"@, content_encoding@),
            *final(self) == *final(r),
    {
        self.set("Content-Encoding", content_encoding)
    }

    /// Stores the `Transfer-Encoding` header.
    pub fn set_transfer_encoding(&mut self, transfer_encoding: &'b str) -> (r: &mut Self)
        requires
            old(self).wf(),
            spec_try_set(old(self).view(), "Transfer-Encoding"@, transfer_encoding@) is Some,
        ensures
            r.wf(),
            Some(r.view()) == spec_try_set(
                old(self).view(),
                "Transfer-Encoding"@,
                transfer_encoding@,
            ),
            *final(self) == *final(r),
    {
        self.set("Transfer-Encoding", transfer_encoding)
    }

    /// Stores `Transfer-Encoding: Chunked`.
    pub fn set_transfer_encoding_chunked(&mut self) -> (r: &mut Self)
        requires
            old(self).wf(),
            spec_try_set(old(self).view(), "Transfer-Encoding"@, "Chunked"@) is Some,
        ensures
            r.wf(),
            Some(r.view()) == spec_try_set(old(self).view(), "Transfer-Encoding"@, "Chunked"@),
            *final(self) == *final(r),
    {
        self.set_transfer_encoding("Chunked")
    }

    /// Stores the `Host` header.
    pub fn set_host(&mut self, host: &'b str) -> (r: &mut Self)
        requires
            old(self).wf(),
            spec_try_set(old(self).view(), "Host"@, host@) is Some,
        ensures
            r.wf(),
            Some(r.view()) == spec_try_set(old(self).view(), "Host"@, host@),
            *final(self) == *final(r),
    {
        self.set("Host", host)
    }

    /// Stores the `Connection` header.
    pub fn set_connection(&mut self, connection: &'b str) -> (r: &mut Self)
        requires
            old(self).wf(),
            spec_try_set(old(self).view(), "Connection"@, connection@) is Some,
        ensures
            r.wf(),
            Some(r.view()) == spec_try_set(old(self).view(), "Connection"@, connection@),
            *final(self) == *final(r),
    {
        self.set("Connection", connection)
    }

    /// Stores `Connection: Close`.
    pub fn set_connection_close(&mut self) -> (r: &mut Self)
        requires
            old(self).wf(),
            spec_try_set(old(self).view(), "Connection"@, "Close"@) is Some,
        ensures
            r.wf(),
            Some(r.view()) == spec_try_set(old(self).view(), "Connection"@, "Close"@),
            *final(self) == *final(r),
    {
        self.set_connection("Close")
    }

    /// Stores `Connection: Keep-Alive`.
    pub fn set_connection_keep_alive(&mut self) -> (r: &mut Self)
        requires
            old(self).wf(),
            spec_try_set(old(self).view(), "Connection"@, "Keep-Alive"@) is Some,
        ensures
            r.wf(),
            Some(r.view()) == spec_try_set(old(self).view(), "Connection"@, "Keep-Alive"@),
            *final(self) == *final(r),
    {
        self.set_connection("Keep-Alive")
    }

    /// Stores `Connection: Upgrade`.
    pub fn set_connection_upgrade(&mut self) -> (r: &mut Self)
        requires
            old(self).wf(),
            spec_try_set(old(self).view(), "Connection"@, "Upgrade"@) is Some,
        ensures
            r.wf(),
            Some(r.view()) == spec_try_set(old(self).view(), "Connection"@, "Upgrade"@),
            *final(self) == *final(r),
    {
        self.set_connection("Upgrade")
    }

    /// Stores the `Cache-Control` header.
    pub fn set_cache_control(&mut self, cache: &'b str) -> (r: &mut Self)
        requires
            old(self).wf(),
            spec_try_set(old(self).view(), "Cache-Control"@, cache@) is Some,
        ensures
            r.wf(),
            Some(r.view()) == spec_try_set(old(self).view(), "Cache-Control"@, cache@),
            *final(self) == *final(r),
    {
        self.set("Cache-Control", cache)
    }

    /// Stores `Cache-Control: No-Cache`.
    pub fn set_cache_control_no_cache(&mut self) -> (r: &mut Self)
        requires
            old(self).wf(),
            spec_try_set(old(self).view(), "Cache-Control"@, "No-Cache"@) is Some,
        ensures
            r.wf(),
            Some(r.view()) == spec_try_set(old(self).view(), "Cache-Control"@, "No-Cache"@),
            *final(self) == *final(r),
    {
        self.set_cache_control("No-Cache")
    }

    /// Stores the `Upgrade` header.
    pub fn set_upgrade(&mut self, upgrade: &'b str) -> (r: &mut Self)
        requires
            old(self).wf(),
            spec_try_set(old(self).view(), "Upgrade"@, upgrade@) is Some,
        ensures
            r.wf(),
            Some(r.view()) == spec_try_set(old(self).view(), "Upgrade"@, upgrade@),
            *final(self) == *final(r),
    {
        self.set("Upgrade", upgrade)
    }

    /// Stores `Upgrade: websocket`.
    pub fn set_upgrade_websocket(&mut self) -> (r: &mut Self)
        requires
            old(self).wf(),
            spec_try_set(old(self).view(), "Upgrade"@, "websocket"@) is Some,
        ensures
            r.wf(),
            Some(r.view()) == spec_try_set(old(self).view(), "Upgrade"@, "websocket"@),
            *final(self) == *final(r),
    {
        self.set_upgrade("websocket")
    }

    /// The slots before the first free one.
    pub fn as_slice(&self) -> (r: &[(&'b str, &'b str)])
        ensures
            pairs_view(r@) == spec_as_slice(self.view()),
    {
        let n = self.slots.len();
        let mut i: usize = 0;
        let mut found = false;
        while i < n && !found
            invariant
                n == self.slots@.len(),
                i <= n,
                found ==> i < n && free_pred()(self.view()[i as int]),
                forall|j: int| 0 <= j < i ==> !(#[trigger] free_pred()(self.view()[j])),
            decreases n - i + (if found { 0int } else { 1int }),
        {
            if self.slots[i].0.is_empty() {
                found = true;
            } else {
                i += 1;
            }
        }
        proof {
            lemma_first_index_at(self.view(), free_pred(), i as int);
        }
        let (r, _) = self.slots.as_slice().split_at(i);
        assert(pairs_view(r@) =~= spec_as_slice(self.view()));
        r
    }

    /// All `N` slots, in order.
    pub fn release(self) -> (r: Vec<(&'b str, &'b str)>)
        ensures
            pairs_view(r@) == self.view(),
    {
        self.slots
    }
}

impl<'b, const N: usize> Default for Headers<'b, N> {
    fn default() -> (r: Self)
        ensures
            r.wf(),
            r.view() == Seq::new(N as nat, |i: int| (Seq::<char>::empty(), Seq::<char>::empty())),
    {
        Self::new()
    }
}

/// Storing a header keeps the table well formed.
pub proof fn lemma_try_set_wf(h: HeaderSlots, name: Seq<char>, value: Seq<char>)
    requires
        slots_wf(h),
    ensures
        spec_try_set(h, name, value) matches Some(h2) ==> slots_wf(h2) && h2.len() == h.len(),
{
    lemma_first_index(h, set_pred(name));
    if let Some(k) = first_index(h, set_pred(name)) {
        let h2 = h.update(k, (name, value));
        assert forall|i: int, j: int|
            0 <= i < j < h2.len() && (#[trigger] h2[j]).0.len() > 0 implies (#[trigger] h2[i]).0.len() > 0 by {
            if i != k && j != k {
                assert(h[j].0.len() > 0);
            } else if j == k {
                assert(!set_pred(name)(h[i]));
            } else {
                assert(h[j] == h2[j]);
                assert(h[j].0.len() > 0);
                assert(h[k].0.len() > 0);
            }
        }
        assert forall|i: int, j: int|
            0 <= i < h2.len() && 0 <= j < h2.len() && i != j && (#[trigger] h2[i]).0.len() > 0 && (
            #[trigger] h2[j]).0.len() > 0 implies !eq_ignore_ascii_case(h2[i].0, h2[j].0) by {
            if i == k || j == k {
                let o = if i == k {
                    j
                } else {
                    i
                };
                assert(h2[o] == h[o]);
                if h[k].0.len() > 0 {
                    // the slot held a header with a matching name; `o` did not match that one
                    assert(eq_ignore_ascii_case(h[k].0, name));
                    assert(!eq_ignore_ascii_case(h[k].0, h[o].0));
                    if eq_ignore_ascii_case(name, h[o].0) {
                        lemma_eq_ignore_ascii_case_transitive(h[k].0, name, h[o].0);
                    }
                    lemma_eq_ignore_ascii_case_symmetric(name, h[o].0);
                } else {
                    // a free slot: `o` must come before it, and did not match the name
                    if o > k {
                        assert(h[k].0.len() > 0);
                    }
                    assert(!set_pred(name)(h[o]));
                    lemma_eq_ignore_ascii_case_symmetric(name, h[o].0);
                }
                lemma_eq_ignore_ascii_case_symmetric(h2[i].0, h2[j].0);
            } else {
                assert(h2[i] == h[i] && h2[j] == h[j]);
            }
        }
    }
}

/// Removing a header keeps the table well formed.
pub proof fn lemma_remove_wf(h: HeaderSlots, name: Seq<char>)
    requires
        slots_wf(h),
    ensures
        slots_wf(spec_remove(h, name)),
        spec_remove(h, name).len() == h.len(),
{
    lemma_first_index(h, remove_pred(name));
    if let Some(k) = first_index(h, remove_pred(name)) {
        let h2 = spec_remove(h, name);
        assert(h2.len() == h.len());
        assert forall|i: int| 0 <= i < h2.len() implies #[trigger] h2[i] == (if i < k {
            h[i]
        } else if i < h.len() - 1 {
            h[i + 1]
        } else {
            (Seq::<char>::empty(), Seq::<char>::empty())
        }) by {}
        assert forall|i: int, j: int|
            0 <= i < j < h2.len() && (#[trigger] h2[j]).0.len() > 0 implies (#[trigger] h2[i]).0.len() > 0 by {
            let oi = if i < k {
                i
            } else {
                i + 1
            };
            let oj = if j < k {
                j
            } else {
                j + 1
            };
            assert(h[oj] == h2[j]);
            assert(h[oi] == h2[i]);
            assert(h[oj].0.len() > 0);
        }
        assert forall|i: int, j: int|
            0 <= i < h2.len() && 0 <= j < h2.len() && i != j && (#[trigger] h2[i]).0.len() > 0 && (
            #[trigger] h2[j]).0.len() > 0 implies !eq_ignore_ascii_case(h2[i].0, h2[j].0) by {
            let oi = if i < k {
                i
            } else {
                i + 1
            };
            let oj = if j < k {
                j
            } else {
                j + 1
            };
            assert(h[oj] == h2[j]);
            assert(h[oi] == h2[i]);
        }
    }
}

/// The `Content-Length` header `set_content_len` stores reads back, through `content_len`,
/// as the length given.
pub proof fn lemma_content_len_roundtrip(h: HeaderSlots, n: u64)
    requires
        spec_try_set(h, "Content-Length"@, decimal_text(n as nat)) is Some,
    ensures
        spec_get(spec_try_set(h, "Content-Length"@, decimal_text(n as nat)).unwrap(), "Content-Length"@)
            == Some(decimal_text(n as nat)),
        parse_u64(decimal_text(n as nat)) == Some(n),
{
    reveal_strlit("Content-Length");
    lemma_eq_ignore_ascii_case_reflexive("Content-Length"@);
    lemma_set_then_get(h, "Content-Length"@, decimal_text(n as nat), "Content-Length"@);
    lemma_decimal_text_parses(n as nat);
}

/// A header just stored is what a lookup under any ASCII-case variant of its name finds.
pub proof fn lemma_set_then_get(h: HeaderSlots, name: Seq<char>, value: Seq<char>, other: Seq<char>)
    requires
        spec_try_set(h, name, value) is Some,
        name.len() > 0,
        eq_ignore_ascii_case(other, name),
    ensures
        spec_get(spec_try_set(h, name, value).unwrap(), other) == Some(value),
{
    let k = first_index(h, set_pred(name)).unwrap();
    let h2 = spec_try_set(h, name, value).unwrap();
    lemma_first_index(h, set_pred(name));
    lemma_eq_ignore_ascii_case_symmetric(other, name);
    assert forall|j: int| 0 <= j < k implies !(#[trigger] get_pred(other)(h2[j])) by {
        assert(h2[j] == h[j]);
        assert(!set_pred(name)(h[j]));
        if eq_ignore_ascii_case(other, h[j].0) {
            lemma_eq_ignore_ascii_case_symmetric(other, h[j].0);
            lemma_eq_ignore_ascii_case_transitive(h[j].0, other, name);
        }
    }
    assert(get_pred(other)(h2[k]));
    lemma_first_index_at(h2, get_pred(other), k);
}

/// Storing a header leaves the lookup of every name that does not match it unchanged.
pub proof fn lemma_set_keeps_others(h: HeaderSlots, name: Seq<char>, value: Seq<char>, other: Seq<char>)
    requires
        spec_try_set(h, name, value) is Some,
        !eq_ignore_ascii_case(other, name),
    ensures
        spec_get(spec_try_set(h, name, value).unwrap(), other) == spec_get(h, other),
{
    let k = first_index(h, set_pred(name)).unwrap();
    let h2 = spec_try_set(h, name, value).unwrap();
    lemma_first_index(h, set_pred(name));
    lemma_first_index(h, get_pred(other));
    lemma_first_index(h2, get_pred(other));
    assert(!get_pred(other)(h2[k]));
    assert(!get_pred(other)(h[k])) by {
        if h[k].0.len() > 0 && eq_ignore_ascii_case(other, h[k].0) {
            lemma_eq_ignore_ascii_case_transitive(other, h[k].0, name);
        }
    }
    assert forall|j: int| 0 <= j < h.len() implies #[trigger] get_pred(other)(h2[j]) == get_pred(other)(h[j]) by {
        if j != k {
            assert(h2[j] == h[j]);
        }
    }
    match first_index(h, get_pred(other)) {
        Some(m) => {
            lemma_first_index_at(h2, get_pred(other), m);
            assert(h2[m] == h[m]);
        },
        None => {
            lemma_first_index_at(h2, get_pred(other), h.len() as int);
        },
    }
}

/// In a well-formed table, once a header is removed no lookup under its name finds anything.
pub proof fn lemma_remove_then_get(h: HeaderSlots, name: Seq<char>, other: Seq<char>)
    requires
        slots_wf(h),
        eq_ignore_ascii_case(other, name),
    ensures
        spec_get(spec_remove(h, name), other) is None,
{
    lemma_first_index(h, remove_pred(name));
    let h2 = spec_remove(h, name);
    lemma_first_index(h2, get_pred(other));
    lemma_eq_ignore_ascii_case_symmetric(other, name);
    if let Some(m) = first_index(h2, get_pred(other)) {
        assert(eq_ignore_ascii_case(h2[m].0, name)) by {
            lemma_eq_ignore_ascii_case_symmetric(other, h2[m].0);
            lemma_eq_ignore_ascii_case_transitive(h2[m].0, other, name);
        }
        match first_index(h, remove_pred(name)) {
            Some(k) => {
                if m < k {
                    assert(h2[m] == h[m]);
                } else {
                    assert(m < h.len() - 1);
                    assert(h2[m] == h[m + 1]);
                    // two headers in use whose names both match `name`
                    lemma_eq_ignore_ascii_case_symmetric(h[k].0, name);
                    lemma_eq_ignore_ascii_case_transitive(h[m + 1].0, name, h[k].0);
                    if h[k].0.len() == 0 {
                        assert(h[m + 1].0.len() > 0);
                    }
                }
            },
            None => {
                assert(h2 == h);
                assert(remove_pred(name)(h[m]));
            },
        }
    }
}

/// Storing fails exactly when every slot is in use by a header with another name.
pub proof fn lemma_try_set_fails_when_full(h: HeaderSlots, name: Seq<char>, value: Seq<char>)
    ensures
        spec_try_set(h, name, value) is None <==> forall|i: int|
            0 <= i < h.len() ==> (#[trigger] h[i]).0.len() > 0 && !eq_ignore_ascii_case(h[i].0, name),
{
    lemma_first_index(h, set_pred(name));
    if let Some(k) = first_index(h, set_pred(name)) {
        assert(set_pred(name)(h[k]));
    } else {
        assert forall|i: int| 0 <= i < h.len() implies (#[trigger] h[i]).0.len() > 0
            && !eq_ignore_ascii_case(h[i].0, name) by {
            assert(!set_pred(name)(h[i]));
        }
    }
}

/// In a well-formed table the slots before the first free one are exactly the slots in use,
/// in order: `as_slice` and `iter` give the same headers, each with a name, no two of them
/// with names that match regardless of ASCII case.
pub proof fn lemma_as_slice_is_in_use(h: HeaderSlots)
    requires
        slots_wf(h),
    ensures
        spec_as_slice(h) == spec_in_use(h),
        forall|i: int| 0 <= i < spec_as_slice(h).len() ==> (#[trigger] spec_as_slice(h)[i]).0.len() > 0,
        forall|i: int, j: int|
            0 <= i < spec_as_slice(h).len() && 0 <= j < spec_as_slice(h).len() && i != j
                ==> !eq_ignore_ascii_case(#[trigger] spec_as_slice(h)[i].0, #[trigger] spec_as_slice(h)[j].0),
{
    lemma_first_index(h, free_pred());
    let k = match first_index(h, free_pred()) {
        Some(k) => k,
        None => h.len() as int,
    };
    assert(spec_as_slice(h) =~= h.take(k));
    assert forall|j: int| k <= j < h.len() implies (#[trigger] h[j]).0.len() == 0 by {
        if h[j].0.len() > 0 {
            assert(h[k].0.len() > 0);
        }
    }
    lemma_filter_prefix(h, k);
    let a = spec_as_slice(h);
    assert forall|i: int| 0 <= i < a.len() implies (#[trigger] a[i]).0.len() > 0 by {
        assert(a[i] == h[i]);
    }
    assert forall|i: int, j: int| 0 <= i < a.len() && 0 <= j < a.len() && i != j implies !eq_ignore_ascii_case(
        #[trigger] a[i].0,
        #[trigger] a[j].0,
    ) by {
        assert(a[i] == h[i] && a[j] == h[j]);
    }
}

proof fn lemma_filter_prefix(h: HeaderSlots, k: int)
    requires
        0 <= k <= h.len(),
        forall|j: int| 0 <= j < k ==> (#[trigger] h[j]).0.len() > 0,
        forall|j: int| k <= j < h.len() ==> (#[trigger] h[j]).0.len() == 0,
    ensures
        spec_in_use(h) == h.take(k),
    decreases h.len(),
{
    reveal(Seq::filter);
    if h.len() > 0 {
        if k == h.len() {
            lemma_filter_prefix(h.drop_last(), k - 1);
            assert(h.drop_last().take(k - 1) =~= h.take(k - 1));
            assert(h.take(k) =~= h.take(k - 1).push(h.last()));
        } else {
            lemma_filter_prefix(h.drop_last(), k);
            assert(h.drop_last().take(k) =~= h.take(k));
        }
    } else {
        assert(h.take(k) =~= h);
    }
}

/// A registration of `handler` for requests with `method` on `path`, chained before `next`.
pub struct ChainHandler<H, N> {
    pub path: &'static str,
    pub method: Method,
    pub handler: H,
    pub next: N,
}

impl<H, N> ChainHandler<H, N> {
    /// Chains a handler for `GET` requests on `path`.
    pub fn get<H2>(self, path: &'static str, handler: H2) -> (r: ChainHandler<H2, ChainHandler<H, N>>)
        ensures
            r.path == path,
            r.method == Method::Get,
            r.handler == handler,
            r.next == self,
    {
        self.request(path, Method::Get, handler)
    }

    /// Chains a handler for `POST` requests on `path`.
    pub fn post<H2>(self, path: &'static str, handler: H2) -> (r: ChainHandler<H2, ChainHandler<H, N>>)
        ensures
            r.path == path,
            r.method == Method::Post,
            r.handler == handler,
            r.next == self,
    {
        self.request(path, Method::Post, handler)
    }

    /// Chains a handler for `PUT` requests on `path`.
    pub fn put<H2>(self, path: &'static str, handler: H2) -> (r: ChainHandler<H2, ChainHandler<H, N>>)
        ensures
            r.path == path,
            r.method == Method::Put,
            r.handler == handler,
            r.next == self,
    {
        self.request(path, Method::Put, handler)
    }

    /// Chains a handler for `DELETE` requests on `path`.
    pub fn delete<H2>(self, path: &'static str, handler: H2) -> (r: ChainHandler<
        H2,
        ChainHandler<H, N>,
    >)
        ensures
            r.path == path,
            r.method == Method::Delete,
            r.handler == handler,
            r.next == self,
    {
        self.request(path, Method::Delete, handler)
    }

    /// Chains a handler for requests with `method` on `path`.
    pub fn request<H2>(self, path: &'static str, method: Method, handler: H2) -> (r: ChainHandler<
        H2,
        ChainHandler<H, N>,
    >)
        ensures
            r.path == path,
            r.method == method,
            r.handler == handler,
            r.next == self,
    {
        ChainHandler { path, method, handler, next: self }
    }
}

/// The end of a chain of registrations.
pub struct ChainRoot;

impl ChainRoot {
    /// Starts a chain with a handler for `GET` requests on `path`.
    pub fn get<H2>(self, path: &'static str, handler: H2) -> (r: ChainHandler<H2, ChainRoot>)
        ensures
            r.path == path,
            r.method == Method::Get,
            r.handler == handler,
    {
        self.request(path, Method::Get, handler)
    }

    /// Starts a chain with a handler for `POST` requests on `path`.
    pub fn post<H2>(self, path: &'static str, handler: H2) -> (r: ChainHandler<H2, ChainRoot>)
        ensures
            r.path == path,
            r.method == Method::Post,
            r.handler == handler,
    {
        self.request(path, Method::Post, handler)
    }

    /// Starts a chain with a handler for `PUT` requests on `path`.
    pub fn put<H2>(self, path: &'static str, handler: H2) -> (r: ChainHandler<H2, ChainRoot>)
        ensures
            r.path == path,
            r.method == Method::Put,
            r.handler == handler,
    {
        self.request(path, Method::Put, handler)
    }

    /// Starts a chain with a handler for `DELETE` requests on `path`.
    pub fn delete<H2>(self, path: &'static str, handler: H2) -> (r: ChainHandler<H2, ChainRoot>)
        ensures
            r.path == path,
            r.method == Method::Delete,
            r.handler == handler,
    {
        self.request(path, Method::Delete, handler)
    }

    /// Starts a chain with a handler for requests with `method` on `path`.
    pub fn request<H2>(self, path: &'static str, method: Method, handler: H2) -> (r: ChainHandler<
        H2,
        ChainRoot,
    >)
        ensures
            r.path == path,
            r.method == method,
            r.handler == handler,
    {
        ChainHandler { path, method, handler, next: ChainRoot }
    }
}

} // verus!
