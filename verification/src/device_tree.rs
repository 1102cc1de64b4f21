//! A flattened device tree held as plain values, with the queries board
//! discovery makes of it: property lookup, phandle resolution, interrupt
//! parents, and the byte-level decoding of property values.
use vstd::prelude::*;
use vstd::utf8::*;

use crate::platform::DriverError;

verus! {

/// One property of a node: its name and raw value bytes.
#[derive(Debug, Clone, PartialEq, Eq)]
pub struct DtProperty {
    pub name: String,
    pub value: Vec<u8>,
}

/// One `reg` entry as decoded with the parent's cell sizes.
#[derive(Debug, Clone, Copy, PartialEq, Eq, Structural)]
pub struct DtRegion {
    pub base: usize,
    pub size: Option<usize>,
}

/// One node: its unit name, its properties in blob order, its decoded
/// `reg` entries (absent where the parent's cell sizes cannot be decoded
/// or there is no `reg`), the byte lengths of each raw `reg` entry's
/// address and size parts (absent where there is no `reg`), and the
/// indices of its children in blob order.
#[derive(Debug, Clone, PartialEq, Eq)]
pub struct DtNode {
    pub name: String,
    pub properties: Vec<DtProperty>,
    pub reg: Option<Vec<DtRegion>>,
    pub raw_reg: Option<Vec<(usize, usize)>>,
    pub children: Vec<usize>,
}

/// Every node of the tree in depth-first blob order.
#[derive(Debug, Clone, PartialEq, Eq)]
pub struct DeviceTree {
    pub nodes: Vec<DtNode>,
}

/// UTF-8 bytes of a text.
pub open spec fn utf8_bytes(text: Seq<char>) -> Seq<u8> {
    encode_utf8(text)
}

/// Big-endian 32-bit cell starting at `offset`.
pub open spec fn be_u32_at(bytes: Seq<u8>, offset: int) -> u32 {
    (bytes[offset] as int * 0x100_0000 + bytes[offset + 1] as int * 0x1_0000 + bytes[offset + 2] as int
        * 0x100 + bytes[offset + 3] as int) as u32
}

/// Reads the big-endian cell at `offset`, if four bytes are there.
pub fn read_be_u32(bytes: &[u8], offset: usize) -> (cell: Option<u32>)
    ensures
        cell == (if offset + 4 <= bytes@.len() {
            Some(be_u32_at(bytes@, offset as int))
        } else {
            None
        }),
{
    if offset > bytes.len() || bytes.len() - offset < 4 {
        return None;
    }
    let value: u32 = (bytes[offset] as u32) * 0x100_0000 + (bytes[offset + 1] as u32) * 0x1_0000
        + (bytes[offset + 2] as u32) * 0x100 + (bytes[offset + 3] as u32);
    Some(value)
}

/// Whether `a` and `b` hold the same bytes.
pub fn bytes_equal(a: &[u8], b: &[u8]) -> (same: bool)
    ensures
        same == (a@ == b@),
{
    if a.len() != b.len() {
        return false;
    }
    let mut index: usize = 0;
    while index < a.len()
        invariant
            a@.len() == b@.len(),
            index <= a@.len(),
            forall|k: int| 0 <= k < index ==> a@[k] == b@[k],
        decreases a@.len() - index,
    {
        if a[index] != b[index] {
            return false;
        }
        index = index + 1;
    }
    assert(a@ =~= b@);
    true
}

/// Whether `bytes` begins with `prefix`.
pub fn bytes_start_with(bytes: &[u8], prefix: &[u8]) -> (starts: bool)
    ensures
        starts == (prefix@.len() <= bytes@.len() && bytes@.subrange(0, prefix@.len() as int)
            == prefix@),
{
    if prefix.len() > bytes.len() {
        return false;
    }
    let mut index: usize = 0;
    while index < prefix.len()
        invariant
            prefix@.len() <= bytes@.len(),
            index <= prefix@.len(),
            forall|k: int| 0 <= k < index ==> bytes@[k] == prefix@[k],
        decreases prefix@.len() - index,
    {
        if bytes[index] != prefix[index] {
            assert(bytes@.subrange(0, prefix@.len() as int)[index as int] != prefix@[index as int]);
            return false;
        }
        index = index + 1;
    }
    assert(bytes@.subrange(0, prefix@.len() as int) =~= prefix@);
    true
}

/// The pieces of `bytes` between zero bytes, as `split` on zero yields
/// them: a zero byte ends a piece, and the last piece runs to the end.
pub open spec fn split_zero(bytes: Seq<u8>) -> Seq<Seq<u8>>
    decreases bytes.len(),
{
    if bytes.len() == 0 {
        seq![Seq::empty()]
    } else {
        let rest = split_zero(bytes.drop_first());
        if bytes[0] == 0 {
            seq![Seq::empty()] + rest
        } else {
            rest.update(0, seq![bytes[0]] + rest[0])
        }
    }
}

/// `pieces` with `head` put in front of its first piece.
pub open spec fn join_first(head: Seq<u8>, pieces: Seq<Seq<u8>>) -> Seq<Seq<u8>> {
    pieces.update(0, head + pieces[0])
}

proof fn lemma_split_zero_nonempty(bytes: Seq<u8>)
    ensures
        split_zero(bytes).len() >= 1,
    decreases bytes.len(),
{
    if bytes.len() > 0 {
        lemma_split_zero_nonempty(bytes.drop_first());
    }
}

/// Views of a list of byte vectors.
pub open spec fn byte_views(pieces: Seq<Vec<u8>>) -> Seq<Seq<u8>> {
    pieces.map_values(|piece: Vec<u8>| piece@)
}

/// Splits `bytes` at every zero byte.
pub fn zero_split(bytes: &[u8]) -> (pieces: Vec<Vec<u8>>)
    ensures
        byte_views(pieces@) == split_zero(bytes@),
{
    let mut pieces: Vec<Vec<u8>> = Vec::new();
    let mut current: Vec<u8> = Vec::new();
    let mut index: usize = 0;
    let ghost whole = bytes@;
    proof {
        assert(whole.subrange(0, whole.len() as int) =~= whole);
        lemma_split_zero_nonempty(whole);
        assert(join_first(Seq::empty(), split_zero(whole)) =~= split_zero(whole));
        assert(byte_views(pieces@) =~= Seq::<Seq<u8>>::empty());
    }
    while index < bytes.len()
        invariant
            whole == bytes@,
            index <= whole.len(),
            split_zero(whole) == byte_views(pieces@) + join_first(
                current@,
                split_zero(whole.subrange(index as int, whole.len() as int)),
            ),
        decreases whole.len() - index,
    {
        let ghost tail = whole.subrange(index as int, whole.len() as int);
        let ghost next = whole.subrange(index as int + 1, whole.len() as int);
        proof {
            assert(tail.drop_first() =~= next);
            lemma_split_zero_nonempty(next);
        }
        if bytes[index] == 0 {
            let ghost before = byte_views(pieces@);
            let ghost done = current@;
            let finished = current;
            pieces.push(finished);
            current = Vec::new();
            proof {
                assert(byte_views(pieces@) =~= before.push(done));
                assert(join_first(done, split_zero(tail)) =~= seq![done] + split_zero(next));
                assert(join_first(current@, split_zero(next)) =~= split_zero(next));
                assert(before + (seq![done] + split_zero(next)) =~= before.push(done) + split_zero(
                    next,
                ));
            }
        } else {
            let ghost prior = current@;
            current.push(bytes[index]);
            proof {
                let rest = split_zero(next);
                assert(tail[0] == bytes@[index as int]);
                assert(split_zero(tail) == rest.update(0, seq![tail[0]] + rest[0]));
                assert(prior + (seq![tail[0]] + rest[0]) =~= current@ + rest[0]);
                assert(join_first(prior, split_zero(tail)) =~= join_first(current@, rest));
            }
        }
        index = index + 1;
    }
    proof {
        let tail = whole.subrange(index as int, whole.len() as int);
        assert(tail =~= Seq::<u8>::empty());
    }
    let ghost before = byte_views(pieces@);
    let ghost last = current@;
    pieces.push(current);
    proof {
        assert(byte_views(pieces@) =~= before.push(last));
        assert(join_first(last, seq![Seq::empty()]) =~= seq![last]);
        assert(before + seq![last] =~= before.push(last));
    }
    pieces
}

/// `i` is the first property of `props` named `name`.
pub open spec fn first_named(props: Seq<DtProperty>, name: Seq<char>, i: int) -> bool {
    &&& 0 <= i < props.len()
    &&& props[i].name@ == name
    &&& forall|j: int| 0 <= j < i ==> (#[trigger] props[j]).name@ != name
}

/// Value of the first property of `node` named `name`.
pub open spec fn prop(node: DtNode, name: Seq<char>) -> Option<Seq<u8>> {
    if exists|i: int| first_named(node.properties@, name, i) {
        Some(node.properties@[choose|i: int| first_named(node.properties@, name, i)].value@)
    } else {
        None
    }
}

/// Value of a property that holds exactly one cell.
pub open spec fn prop_u32(node: DtNode, name: Seq<char>) -> Option<u32> {
    match prop(node, name) {
        Some(value) => if value.len() == 4 {
            Some(be_u32_at(value, 0))
        } else {
            None
        },
        None => None,
    }
}

/// The node's own phandle, under either of its property names.
pub open spec fn node_phandle(node: DtNode) -> Option<u32> {
    match prop_u32(node, "phandle"@) {
        Some(handle) => Some(handle),
        None => prop_u32(node, "linux,phandle"@),
    }
}

/// The node's `phandle` property starts with the cell `handle`.
pub open spec fn carries_phandle(node: DtNode, handle: u32) -> bool {
    match prop(node, "phandle"@) {
        Some(value) => value.len() >= 4 && be_u32_at(value, 0) == handle,
        None => false,
    }
}

/// `i` is the first node in blob order carrying `handle`.
pub open spec fn first_with_phandle(tree: DeviceTree, handle: u32, i: int) -> bool {
    &&& 0 <= i < tree.nodes@.len()
    &&& carries_phandle(tree.nodes@[i], handle)
    &&& forall|j: int| 0 <= j < i ==> !carries_phandle(#[trigger] tree.nodes@[j], handle)
}

/// Index of the node a phandle refers to.
pub open spec fn find_phandle(tree: DeviceTree, handle: u32) -> Option<int> {
    if exists|i: int| first_with_phandle(tree, handle, i) {
        Some(choose|i: int| first_with_phandle(tree, handle, i))
    } else {
        None
    }
}

/// Node named by the `interrupt-parent` property of node `i`.
pub open spec fn interrupt_parent(tree: DeviceTree, i: int) -> Option<int> {
    match prop(tree.nodes@[i], "interrupt-parent"@) {
        Some(value) => if value.len() >= 4 {
            find_phandle(tree, be_u32_at(value, 0))
        } else {
            None
        },
        None => None,
    }
}

/// The node's `#interrupt-cells`, read from its first cell.
pub open spec fn interrupt_cells(node: DtNode) -> Option<usize> {
    match prop(node, "#interrupt-cells"@) {
        Some(value) => if value.len() >= 4 {
            Some(be_u32_at(value, 0) as usize)
        } else {
            None
        },
        None => None,
    }
}

impl DtNode {
    /// Value of the first property named `name`.
    pub fn property(&self, name: &str) -> (value: Option<&[u8]>)
        ensures
            match value {
                Some(bytes) => prop(*self, name@) == Some(bytes@),
                None => prop(*self, name@) is None,
            },
    {
        let wanted = String::from_str(name);
        let mut index: usize = 0;
        while index < self.properties.len()
            invariant
                wanted@ == name@,
                index <= self.properties@.len(),
                forall|j: int| 0 <= j < index ==> (#[trigger] self.properties@[j]).name@ != name@,
            decreases self.properties@.len() - index,
        {
            if self.properties[index].name == wanted {
                proof {
                    assert(first_named(self.properties@, name@, index as int));
                    let chosen = choose|i: int| first_named(self.properties@, name@, i);
                    if chosen < index {
                        assert(self.properties@[chosen].name@ != name@);
                    }
                    if index < chosen {
                        assert(self.properties@[index as int].name@ != name@);
                    }
                }
                return Some(self.properties[index].value.as_slice());
            }
            index = index + 1;
        }
        None
    }

    /// Whether the node has a property named `name`.
    pub fn has_property(&self, name: &str) -> (present: bool)
        ensures
            present == prop(*self, name@) is Some,
    {
        self.property(name).is_some()
    }

    /// Value of a one-cell property.
    pub fn property_u32(&self, name: &str) -> (cell: Option<u32>)
        ensures
            cell == prop_u32(*self, name@),
    {
        match self.property(name) {
            Some(value) => if value.len() == 4 {
                read_be_u32(value, 0)
            } else {
                None
            },
            None => None,
        }
    }

    /// The node's phandle under `phandle` or `linux,phandle`.
    pub fn phandle(&self) -> (handle: Option<u32>)
        ensures
            handle == node_phandle(*self),
    {
        match self.property_u32("phandle") {
            Some(handle) => Some(handle),
            None => self.property_u32("linux,phandle"),
        }
    }

    /// The node's `#interrupt-cells`.
    pub fn interrupt_cells(&self) -> (cells: Option<usize>)
        ensures
            cells == interrupt_cells(*self),
    {
        match self.property("#interrupt-cells") {
            Some(value) => match read_be_u32(value, 0) {
                Some(cell) => Some(cell as usize),
                None => None,
            },
            None => None,
        }
    }

    fn carries_phandle(&self, handle: u32) -> (carries: bool)
        ensures
            carries == carries_phandle(*self, handle),
    {
        match self.property("phandle") {
            Some(value) => match read_be_u32(value, 0) {
                Some(cell) => cell == handle,
                None => false,
            },
            None => false,
        }
    }
}

impl DeviceTree {
    /// Every child index names a node of the tree.
    pub open spec fn well_formed(&self) -> bool {
        forall|i: int, j: int|
            0 <= i < self.nodes@.len() && 0 <= j < self.nodes@[i].children@.len()
                ==> #[trigger] self.nodes@[i].children@[j] < self.nodes@.len()
    }

    /// Whether every child index names a node of the tree.
    pub fn is_well_formed(&self) -> (ok: bool)
        ensures
            ok == self.well_formed(),
    {
        let mut i: usize = 0;
        while i < self.nodes.len()
            invariant
                i <= self.nodes@.len(),
                forall|a: int, j: int|
                    0 <= a < i && 0 <= j < self.nodes@[a].children@.len()
                        ==> #[trigger] self.nodes@[a].children@[j] < self.nodes@.len(),
            decreases self.nodes@.len() - i,
        {
            let mut j: usize = 0;
            while j < self.nodes[i].children.len()
                invariant
                    i < self.nodes@.len(),
                    j <= self.nodes@[i as int].children@.len(),
                    forall|a: int, b: int|
                        0 <= a < i && 0 <= b < self.nodes@[a].children@.len()
                            ==> #[trigger] self.nodes@[a].children@[b] < self.nodes@.len(),
                    forall|b: int|
                        0 <= b < j ==> #[trigger] self.nodes@[i as int].children@[b] < self.nodes@.len(),
                decreases self.nodes@[i as int].children@.len() - j,
            {
                if self.nodes[i].children[j] >= self.nodes.len() {
                    return false;
                }
                j = j + 1;
            }
            i = i + 1;
        }
        true
    }

    /// Index of the first node whose `phandle` is `handle`.
    pub fn find_phandle(&self, handle: u32) -> (found: Option<usize>)
        ensures
            match found {
                Some(i) => find_phandle(*self, handle) == Some(i as int),
                None => find_phandle(*self, handle) is None,
            },
    {
        let mut index: usize = 0;
        while index < self.nodes.len()
            invariant
                index <= self.nodes@.len(),
                forall|j: int| 0 <= j < index ==> !carries_phandle(#[trigger] self.nodes@[j], handle),
            decreases self.nodes@.len() - index,
        {
            if self.nodes[index].carries_phandle(handle) {
                proof {
                    assert(first_with_phandle(*self, handle, index as int));
                    let chosen = choose|i: int| first_with_phandle(*self, handle, i);
                    if chosen < index {
                        assert(!carries_phandle(self.nodes@[chosen], handle));
                    }
                    if index < chosen {
                        assert(!carries_phandle(self.nodes@[index as int], handle));
                    }
                }
                return Some(index);
            }
            index = index + 1;
        }
        None
    }

    /// Index of the node named by node `index`'s `interrupt-parent`.
    pub fn interrupt_parent(&self, index: usize) -> (parent: Option<usize>)
        requires
            index < self.nodes@.len(),
        ensures
            match parent {
                Some(p) => interrupt_parent(*self, index as int) == Some(p as int),
                None => interrupt_parent(*self, index as int) is None,
            },
    {
        match self.nodes[index].property("interrupt-parent") {
            Some(value) => match read_be_u32(value, 0) {
                Some(handle) => self.find_phandle(handle),
                None => None,
            },
            None => None,
        }
    }
}

/// Owned text of UTF-8 bytes, by `core::str::from_utf8`: it succeeds
/// exactly on well-formed UTF-8 (vstd's `valid_utf8`, which also refuses
/// overlong forms and surrogates) and then yields the decoded characters.
#[verifier::external_body]
fn utf8_text(bytes: &[u8]) -> (text: Option<String>)
    ensures
        text is Some <==> valid_utf8(bytes@),
        text matches Some(decoded) ==> decoded@ == decode_utf8(bytes@),
{
    match core::str::from_utf8(bytes) {
        Ok(decoded) => Some(String::from(decoded)),
        Err(_) => None,
    }
}

/// The node lists `expected` among its zero-separated `compatible` entries.
pub open spec fn has_compatible(node: DtNode, expected: Seq<char>) -> bool {
    match prop(node, "compatible"@) {
        Some(value) => split_zero(value).contains(utf8_bytes(expected)),
        None => false,
    }
}

/// Items of a NUL-terminated string list: none when the value is empty,
/// unterminated, or holds an empty or malformed item.
pub open spec fn string_items(raw: Seq<u8>) -> Option<Seq<Seq<char>>> {
    if raw.len() == 0 || raw.last() != 0 {
        None
    } else {
        let pieces = split_zero(raw.drop_last());
        if forall|k: int|
            0 <= k < pieces.len() ==> (#[trigger] pieces[k]).len() > 0 && valid_utf8(pieces[k]) {
            Some(pieces.map_values(|piece: Seq<u8>| decode_utf8(piece)))
        } else {
            None
        }
    }
}

/// The string list held by property `name`.
pub open spec fn string_list(node: DtNode, name: Seq<char>) -> Option<Seq<Seq<char>>> {
    match prop(node, name) {
        Some(raw) => string_items(raw),
        None => None,
    }
}

/// Views of a list of strings.
pub open spec fn text_views(items: Seq<String>) -> Seq<Seq<char>> {
    items.map_values(|item: String| item@)
}

/// A present empty property is true, an absent one false; a valued one is
/// malformed.
pub open spec fn boolean_property(node: DtNode, name: Seq<char>) -> Option<bool> {
    match prop(node, name) {
        Some(value) => if value.len() == 0 {
            Some(true)
        } else {
            None
        },
        None => Some(false),
    }
}

/// Whether the node is enabled by its `status`: absent, `okay` or `ok` is
/// enabled; `disabled`, `reserved`, `fail` or `failed` is not; anything
/// else, or a value without its terminating NUL, is malformed.
pub open spec fn node_enabled(node: DtNode) -> Option<bool> {
    match prop(node, "status"@) {
        None => Some(true),
        Some(raw) => if raw.len() == 0 || raw.last() != 0 {
            None
        } else {
            let text = raw.drop_last();
            if text == utf8_bytes("okay"@) || text == utf8_bytes("ok"@) {
                Some(true)
            } else if text == utf8_bytes("disabled"@) || text == utf8_bytes("reserved"@) || text
                == utf8_bytes("fail"@) || text == utf8_bytes("failed"@) {
                Some(false)
            } else {
                None
            }
        },
    }
}

/// An optional NUL-terminated UTF-8 property: `Some(None)` when absent,
/// `None` when malformed.
pub open spec fn optional_text(node: DtNode, name: Seq<char>) -> Option<Option<Seq<char>>> {
    match prop(node, name) {
        None => Some(None),
        Some(raw) => if raw.len() == 0 || raw.last() != 0 || !valid_utf8(raw.drop_last()) {
            None
        } else {
            Some(Some(decode_utf8(raw.drop_last())))
        },
    }
}

/// Whether `pieces` holds a piece equal to `expected`.
fn contains_piece(pieces: &Vec<Vec<u8>>, expected: &[u8]) -> (found: bool)
    ensures
        found == byte_views(pieces@).contains(expected@),
{
    let mut index: usize = 0;
    while index < pieces.len()
        invariant
            index <= pieces@.len(),
            forall|j: int| 0 <= j < index ==> (#[trigger] byte_views(pieces@)[j]) != expected@,
        decreases pieces@.len() - index,
    {
        if bytes_equal(pieces[index].as_slice(), expected) {
            assert(byte_views(pieces@)[index as int] == expected@);
            return true;
        }
        index = index + 1;
    }
    false
}

impl DtNode {
    /// Whether `compatible` lists `expected`.
    pub fn has_compatible(&self, expected: &str) -> (listed: bool)
        ensures
            listed == has_compatible(*self, expected@),
    {
        match self.property("compatible") {
            Some(value) => {
                let pieces = zero_split(value);
                contains_piece(&pieces, expected.as_bytes())
            },
            None => false,
        }
    }

    /// Items of the string-list property `name`.
    pub fn string_list(&self, name: &str) -> (items: Result<Vec<String>, DriverError>)
        ensures
            match items {
                Ok(list) => string_list(*self, name@) == Some(text_views(list@)),
                Err(error) => error == DriverError::InvalidDtb && string_list(*self, name@) is None,
            },
    {
        let raw = match self.property(name) {
            Some(raw) => raw,
            None => return Err(DriverError::InvalidDtb),
        };
        if raw.len() == 0 || raw[raw.len() - 1] != 0 {
            return Err(DriverError::InvalidDtb);
        }
        let body = &raw[0..raw.len() - 1];
        assert(body@ =~= raw@.drop_last());
        let pieces = zero_split(body);
        let ghost split = split_zero(raw@.drop_last());
        let mut items: Vec<String> = Vec::new();
        let mut index: usize = 0;
        while index < pieces.len()
            invariant
                prop(*self, name@) == Some(raw@),
                raw@.len() > 0,
                raw@.last() == 0,
                split == split_zero(raw@.drop_last()),
                byte_views(pieces@) == split,
                index <= pieces@.len(),
                items@.len() == index,
                forall|k: int|
                    0 <= k < index ==> (#[trigger] split[k]).len() > 0 && valid_utf8(split[k]),
                forall|k: int| 0 <= k < index ==> (#[trigger] items@[k])@ == decode_utf8(split[k]),
            decreases pieces@.len() - index,
        {
            assert(split[index as int] == pieces@[index as int]@);
            if pieces[index].len() == 0 {
                assert(!(split[index as int].len() > 0));
                return Err(DriverError::InvalidDtb);
            }
            match utf8_text(pieces[index].as_slice()) {
                Some(text) => items.push(text),
                None => {
                    assert(!valid_utf8(split[index as int]));
                    return Err(DriverError::InvalidDtb);
                },
            }
            index = index + 1;
        }
        assert(text_views(items@) =~= split.map_values(|piece: Seq<u8>| decode_utf8(piece)));
        Ok(items)
    }

    /// Reads a boolean (valueless) property.
    pub fn boolean_property(&self, name: &str) -> (flag: Result<bool, DriverError>)
        ensures
            match flag {
                Ok(set) => boolean_property(*self, name@) == Some(set),
                Err(error) => error == DriverError::InvalidDtb && boolean_property(*self, name@)
                    is None,
            },
    {
        match self.property(name) {
            Some(value) => if value.len() == 0 {
                Ok(true)
            } else {
                Err(DriverError::InvalidDtb)
            },
            None => Ok(false),
        }
    }

    /// Whether the node's `status` enables it.
    pub fn enabled(&self) -> (enabled: Result<bool, DriverError>)
        ensures
            match enabled {
                Ok(on) => node_enabled(*self) == Some(on),
                Err(error) => error == DriverError::InvalidDtb && node_enabled(*self) is None,
            },
    {
        let raw = match self.property("status") {
            Some(raw) => raw,
            None => return Ok(true),
        };
        if raw.len() == 0 || raw[raw.len() - 1] != 0 {
            return Err(DriverError::InvalidDtb);
        }
        let text = &raw[0..raw.len() - 1];
        assert(text@ =~= raw@.drop_last());
        if bytes_equal(text, "okay".as_bytes()) || bytes_equal(text, "ok".as_bytes()) {
            Ok(true)
        } else if bytes_equal(text, "disabled".as_bytes()) || bytes_equal(text, "reserved".as_bytes())
            || bytes_equal(text, "fail".as_bytes()) || bytes_equal(text, "failed".as_bytes()) {
            Ok(false)
        } else {
            Err(DriverError::InvalidDtb)
        }
    }

    /// Reads an optional NUL-terminated text property.
    pub fn optional_text(&self, name: &str) -> (text: Result<Option<String>, DriverError>)
        ensures
            match text {
                Ok(Some(value)) => optional_text(*self, name@) == Some(Some(value@)),
                Ok(None) => optional_text(*self, name@) == Some(None::<Seq<char>>),
                Err(error) => error == DriverError::InvalidDtb && optional_text(*self, name@) is None,
            },
    {
        let raw = match self.property(name) {
            Some(raw) => raw,
            None => return Ok(None),
        };
        if raw.len() == 0 || raw[raw.len() - 1] != 0 {
            return Err(DriverError::InvalidDtb);
        }
        let body = &raw[0..raw.len() - 1];
        assert(body@ =~= raw@.drop_last());
        match utf8_text(body) {
            Some(value) => Ok(Some(value)),
            None => Err(DriverError::InvalidDtb),
        }
    }

    /// Whether the node's unit name begins with `prefix`.
    pub fn name_starts_with(&self, prefix: &str) -> (starts: bool)
        ensures
            starts == (utf8_bytes(prefix@).len() <= utf8_bytes(self.name@).len() && utf8_bytes(
                self.name@,
            ).subrange(0, utf8_bytes(prefix@).len() as int) == utf8_bytes(prefix@)),
    {
        bytes_start_with(self.name.as_str().as_bytes(), prefix.as_bytes())
    }
}

} // verus!
