use crate::http_types::HttpStatus;
use crate::utils::generate_key::{base64_standard, generate_key};
use vstd::prelude::*;
use vstd::string::StringExecFns;

verus! {

/// The identifier that the protocol appends to a key before hashing it.
pub const WEBSOCKET_GUID: &'static str = "258EAFA5-E914-47DA-95CA-C5AB0DC85B11";

/// The protocol version that an upgrade request asks for.
pub const WEBSOCKET_VERSION: &'static str = "13";

/// The number of bytes that one read from the transport takes at most.
pub const BUFFER_SIZE: usize = 1024;

/// The position of the header named `name` among `entries`, or `-1` where
/// there is none.
pub open spec fn position_of(entries: Seq<(Seq<char>, Seq<char>)>, name: Seq<char>) -> int
    decreases entries.len(),
{
    if entries.len() == 0 {
        -1
    } else if position_of(entries.drop_last(), name) >= 0 {
        position_of(entries.drop_last(), name)
    } else if entries.last().0 == name {
        entries.len() - 1
    } else {
        -1
    }
}

/// The value of the header named `name` among `entries`. Names are compared
/// as they were received: no case is folded.
pub open spec fn value_of(entries: Seq<(Seq<char>, Seq<char>)>, name: Seq<char>) -> Option<
    Seq<char>,
> {
    if position_of(entries, name) >= 0 {
        Some(entries[position_of(entries, name)].1)
    } else {
        None
    }
}

/// `entries` with the header `name` set to `value`: in the place where the
/// name stood before, or at the end where it is new.
pub open spec fn with_header(
    entries: Seq<(Seq<char>, Seq<char>)>,
    name: Seq<char>,
    value: Seq<char>,
) -> Seq<(Seq<char>, Seq<char>)> {
    if position_of(entries, name) >= 0 {
        entries.update(position_of(entries, name), (name, value))
    } else {
        entries.push((name, value))
    }
}

/// No name occurs twice among `entries`.
pub open spec fn distinct_names(entries: Seq<(Seq<char>, Seq<char>)>) -> bool {
    forall|i: int, j: int|
        0 <= i < j < entries.len() ==> (#[trigger] entries[i]).0 != (#[trigger] entries[j]).0
}

/// `position_of` finds the one entry with the name, if there is any.
pub proof fn lemma_position_of(entries: Seq<(Seq<char>, Seq<char>)>, name: Seq<char>)
    ensures
        -1 <= position_of(entries, name) < entries.len(),
        position_of(entries, name) >= 0 ==> entries[position_of(entries, name)].0 == name,
        forall|i: int|
            0 <= i < entries.len() && (#[trigger] entries[i]).0 == name ==> 0 <= position_of(
                entries,
                name,
            ) <= i,
    decreases entries.len(),
{
    if entries.len() > 0 {
        let front = entries.drop_last();
        lemma_position_of(front, name);
        assert forall|i: int| 0 <= i < entries.len() && (#[trigger] entries[i]).0 == name implies 0
            <= position_of(entries, name) <= i by {
            if i < front.len() {
                assert(front[i].0 == name);
            }
        }
    }
}

/// A header map: each name once, in the order in which the names were first
/// set.
#[derive(Debug, Clone, PartialEq, Eq)]
pub struct Headers {
    entries: Vec<(String, String)>,
}

impl View for Headers {
    type V = Seq<(Seq<char>, Seq<char>)>;

    closed spec fn view(&self) -> Seq<(Seq<char>, Seq<char>)> {
        Seq::new(self.entries@.len(), |i: int| (self.entries@[i].0@, self.entries@[i].1@))
    }
}

impl Headers {
    /// What every header map built by `new` and `insert` meets: no name
    /// occurs twice.
    pub open spec fn wf(&self) -> bool {
        distinct_names(self@)
    }

    /// An empty header map.
    pub fn new() -> (headers: Self)
        ensures
            headers@ == Seq::<(Seq<char>, Seq<char>)>::empty(),
            headers.wf(),
    {
        let headers = Headers { entries: Vec::new() };
        assert(headers@ =~= Seq::<(Seq<char>, Seq<char>)>::empty());
        headers
    }

    /// The number of headers.
    pub fn len(&self) -> (len: usize)
        ensures
            len == self@.len(),
    {
        self.entries.len()
    }

    /// The name of the header at `index`.
    pub fn name_at(&self, index: usize) -> (name: &String)
        requires
            index < self@.len(),
        ensures
            name@ == self@[index as int].0,
    {
        &self.entries[index].0
    }

    /// The value of the header at `index`.
    pub fn value_at(&self, index: usize) -> (value: &String)
        requires
            index < self@.len(),
        ensures
            value@ == self@[index as int].1,
    {
        &self.entries[index].1
    }

    /// The index of the header named `name`.
    fn find(&self, name: &String) -> (found: Option<usize>)
        ensures
            match found {
                Some(i) => i == position_of(self@, name@),
                None => position_of(self@, name@) == -1,
            },
    {
        let mut i: usize = 0;
        while i < self.entries.len()
            invariant
                i <= self.entries@.len(),
                position_of(self@.take(i as int), name@) == -1,
            decreases self.entries@.len() - i,
        {
            assert(self@.take(i + 1).drop_last() =~= self@.take(i as int));
            if self.entries[i].0 == *name {
                assert(self@.take(i + 1).last().0 == name@);
                proof {
                    lemma_position_prefix(self@, name@, i + 1);
                }
                return Some(i);
            }
            i += 1;
        }
        assert(self@.take(i as int) =~= self@);
        None
    }

    /// The value of the header named `name`, compared as it was received.
    pub fn get(&self, name: &str) -> (value: Option<&String>)
        ensures
            match value {
                Some(v) => value_of(self@, name@) == Some(v@),
                None => value_of(self@, name@) is None,
            },
    {
        let key: String = String::from_str(name);
        proof {
            lemma_position_of(self@, name@);
        }
        match self.find(&key) {
            Some(i) => Some(&self.entries[i].1),
            None => None,
        }
    }

    /// Sets the header `name` to `value`, in the place where the name stood
    /// before or at the end where it is new, and hands back the value that it
    /// replaces.
    pub fn insert(&mut self, name: String, value: String) -> (replaced: Option<String>)
        ensures
            final(self)@ == with_header(old(self)@, name@, value@),
            old(self).wf() ==> final(self).wf(),
            match replaced {
                Some(v) => value_of(old(self)@, name@) == Some(v@),
                None => value_of(old(self)@, name@) is None,
            },
    {
        proof {
            lemma_position_of(self@, name@);
            if self.wf() {
                lemma_with_header_distinct(self@, name@, value@);
            }
        }
        match self.find(&name) {
            Some(i) => {
                let ghost before = self@;
                let mut entry: (String, String) = (name, value);
                self.entries.push(entry);
                let previous: (String, String) = self.entries.swap_remove(i);
                assert(self@ =~= with_header(before, name@, value@));
                Some(previous.1)
            },
            None => {
                let ghost before = self@;
                self.entries.push((name, value));
                assert(self@ =~= with_header(before, name@, value@));
                None
            },
        }
    }
}

/// Where the name is found within a prefix, it is found there in the whole.
pub proof fn lemma_position_prefix(entries: Seq<(Seq<char>, Seq<char>)>, name: Seq<char>, n: int)
    requires
        0 <= n <= entries.len(),
        position_of(entries.take(n), name) >= 0,
    ensures
        position_of(entries, name) == position_of(entries.take(n), name),
    decreases entries.len() - n,
{
    if n < entries.len() {
        assert(entries.take(n + 1).drop_last() =~= entries.take(n));
        lemma_position_prefix(entries, name, n + 1);
    } else {
        assert(entries.take(n) =~= entries);
    }
}

/// Setting a header keeps every name single.
pub proof fn lemma_with_header_distinct(
    entries: Seq<(Seq<char>, Seq<char>)>,
    name: Seq<char>,
    value: Seq<char>,
)
    requires
        distinct_names(entries),
    ensures
        distinct_names(with_header(entries, name, value)),
{
    lemma_position_of(entries, name);
    let after = with_header(entries, name, value);
    assert forall|i: int, j: int| 0 <= i < j < after.len() implies (#[trigger] after[i]).0 != (
    #[trigger] after[j]).0 by {
        if position_of(entries, name) >= 0 {
            assert(after[i].0 == entries[i].0);
            assert(after[j].0 == entries[j].0);
        } else if j == entries.len() {
            assert(entries[i].0 != name);
        }
    }
}

/// An upgrade request: its method, the resource it asks for, and its headers
/// with their names as they were received.
#[derive(Debug, Clone, PartialEq, Eq)]
pub struct RequestStruct {
    pub method: String,
    pub uri: String,
    pub headers: Headers,
}

/// A request as a mathematical value.
pub struct RequestView {
    pub method: Seq<char>,
    pub uri: Seq<char>,
    pub headers: Seq<(Seq<char>, Seq<char>)>,
}

impl View for RequestStruct {
    type V = RequestView;

    open spec fn view(&self) -> RequestView {
        RequestView { method: self.method@, uri: self.uri@, headers: self.headers@ }
    }
}

/// The headers of a client's upgrade request that carries the key `key`.
pub open spec fn upgrade_headers(key: Seq<char>) -> Seq<(Seq<char>, Seq<char>)> {
    seq![
        ("Connection"@, "Upgrade"@),
        ("Upgrade"@, "websocket"@),
        ("Sec-WebSocket-Version"@, WEBSOCKET_VERSION@),
        ("Sec-WebSocket-Key"@, key),
    ]
}

/// The four header names of an upgrade request differ from one another.
pub proof fn lemma_upgrade_names_differ()
    ensures
        "Connection"@ != "Upgrade"@,
        "Connection"@ != "Sec-WebSocket-Version"@,
        "Connection"@ != "Sec-WebSocket-Key"@,
        "Connection"@ != "Sec-WebSocket-Accept"@,
        "Upgrade"@ != "Sec-WebSocket-Version"@,
        "Upgrade"@ != "Sec-WebSocket-Key"@,
        "Upgrade"@ != "Sec-WebSocket-Accept"@,
        "Sec-WebSocket-Version"@ != "Sec-WebSocket-Key"@,
        "Sec-WebSocket-Version"@ != "Sec-WebSocket-Accept"@,
        "Sec-WebSocket-Key"@ != "Sec-WebSocket-Accept"@,
{
    reveal_strlit("Connection");
    reveal_strlit("Upgrade");
    reveal_strlit("Sec-WebSocket-Version");
    reveal_strlit("Sec-WebSocket-Key");
    reveal_strlit("Sec-WebSocket-Accept");
    assert("Connection"@.len() == 10);
    assert("Upgrade"@.len() == 7);
    assert("Sec-WebSocket-Version"@.len() == 21);
    assert("Sec-WebSocket-Key"@.len() == 17);
    assert("Sec-WebSocket-Accept"@.len() == 20);
}

impl RequestStruct {
    /// A request with nothing in it.
    pub fn new() -> (request: Self)
        ensures
            request@ == (RequestView {
                method: Seq::empty(),
                uri: Seq::empty(),
                headers: Seq::empty(),
            }),
            request.headers.wf(),
    {
        Self { method: String::new(), uri: String::new(), headers: Headers::new() }
    }

    /// A request with the headers of an upgrade and a fresh key: the Base64
    /// text of sixteen random bytes.
    pub fn default() -> (request: Self)
        ensures
            request@.method == Seq::<char>::empty(),
            request@.uri == Seq::<char>::empty(),
            request.headers.wf(),
            exists|nonce: Seq<u8>|
                nonce.len() == 16 && request@.headers == upgrade_headers(
                    #[trigger] base64_standard(nonce),
                ),
    {
        let key: String = generate_key();
        let ghost nonce: Seq<u8> = choose|nonce: Seq<u8>|
            nonce.len() == 16 && key@ == #[trigger] base64_standard(nonce);
        let mut headers: Headers = Headers::new();
        proof {
            lemma_upgrade_names_differ();
        }
        headers.insert(String::from_str("Connection"), String::from_str("Upgrade"));
        assert(headers@ =~= seq![("Connection"@, "Upgrade"@)]) by {
            reveal_with_fuel(position_of, 2);
        }
        headers.insert(String::from_str("Upgrade"), String::from_str("websocket"));
        assert(headers@ =~= seq![("Connection"@, "Upgrade"@), ("Upgrade"@, "websocket"@)]) by {
            reveal_with_fuel(position_of, 3);
        }
        headers.insert(String::from_str("Sec-WebSocket-Version"), String::from_str(WEBSOCKET_VERSION));
        assert(headers@ =~= seq![
            ("Connection"@, "Upgrade"@),
            ("Upgrade"@, "websocket"@),
            ("Sec-WebSocket-Version"@, WEBSOCKET_VERSION@),
        ]) by {
            lemma_position_absent(seq![("Connection"@, "Upgrade"@), ("Upgrade"@, "websocket"@)], "Sec-WebSocket-Version"@);
        }
        headers.insert(String::from_str("Sec-WebSocket-Key"), key);
        assert(headers@ =~= upgrade_headers(base64_standard(nonce))) by {
            lemma_position_absent(seq![
                ("Connection"@, "Upgrade"@),
                ("Upgrade"@, "websocket"@),
                ("Sec-WebSocket-Version"@, WEBSOCKET_VERSION@),
            ], "Sec-WebSocket-Key"@);
        }
        Self { method: String::new(), uri: String::new(), headers }
    }
}

/// A name that no entry has is at no position.
pub proof fn lemma_position_absent(entries: Seq<(Seq<char>, Seq<char>)>, name: Seq<char>)
    requires
        forall|i: int| 0 <= i < entries.len() ==> (#[trigger] entries[i]).0 != name,
    ensures
        position_of(entries, name) == -1,
        with_header(entries, name, Seq::empty()).len() == entries.len() + 1,
{
    lemma_position_of(entries, name);
}

/// The answer to an upgrade request: a status and headers.
#[derive(Debug, Clone, PartialEq, Eq)]
pub struct ResponseStruct {
    pub status: HttpStatus,
    pub headers: Headers,
}

/// A response as a mathematical value.
pub struct ResponseView {
    pub status: HttpStatus,
    pub headers: Seq<(Seq<char>, Seq<char>)>,
}

impl View for ResponseStruct {
    type V = ResponseView;

    open spec fn view(&self) -> ResponseView {
        ResponseView { status: self.status, headers: self.headers@ }
    }
}

impl Default for ResponseStruct {
    /// The response that accepts an upgrade, its accept value still to be
    /// added.
    fn default() -> (response: Self)
        ensures
            response@ == (ResponseView {
                status: HttpStatus::SwitchingProtocols,
                headers: seq![("Upgrade"@, "websocket"@), ("Connection"@, "Upgrade"@)],
            }),
            response.headers.wf(),
    {
        let mut headers: Headers = Headers::new();
        proof {
            lemma_upgrade_names_differ();
        }
        headers.insert(String::from_str("Upgrade"), String::from_str("websocket"));
        assert(headers@ =~= seq![("Upgrade"@, "websocket"@)]) by {
            lemma_position_absent(Seq::empty(), "Upgrade"@);
        }
        headers.insert(String::from_str("Connection"), String::from_str("Upgrade"));
        assert(headers@ =~= seq![("Upgrade"@, "websocket"@), ("Connection"@, "Upgrade"@)]) by {
            lemma_position_absent(seq![("Upgrade"@, "websocket"@)], "Connection"@);
        }
        Self { status: HttpStatus::SwitchingProtocols, headers }
    }
}

} // verus!
