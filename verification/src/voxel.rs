//! Systems by the cube of space that they lie in.

use crate::trail::SENTINEL;
use std::collections::HashMap;
use vstd::prelude::*;

verus! {

broadcast use vstd::std_specs::hash::group_hash_axioms;

/// A cube of space.
pub type Cell = (i32, i32, i32);

/// The count of a slot that holds no cell.
pub const EMPTY: u32 = 0xffff_ffff;

/// One axis of a cell, spread over the 32-bit numbers.
pub open spec fn lane(c: i32, factor: int) -> u32 {
    ((c * factor) % 0x1_0000_0000) as u32
}

/// The hash of a cell.
pub open spec fn hash3(cx: i32, cy: i32, cz: i32) -> u32 {
    lane(cx, 2654435761) ^ lane(cy, 805459861) ^ lane(cz, 3266489917)
}

/// The product of a cell coordinate and an odd factor, kept to 32 bits.
fn spread(c: i32, factor: u32) -> (r: u32)
    ensures
        r == lane(c, factor as int),
{
    let u: u32 = c as u32;
    proof {
        assert(c >= 0 ==> (c as u32) == c) by (bit_vector);
        assert(c < 0 ==> (c as u32) == c + 0x1_0000_0000) by (bit_vector);
        assert(u as int == (c as int) % 0x1_0000_0000);
        vstd::arithmetic::div_mod::lemma_mul_mod_noop_left(
            c as int,
            factor as int,
            0x1_0000_0000,
        );
    }
    u.wrapping_mul(factor)
}

/// The hash by which the cells are spread over the voxel table; the compute
/// shader uses the same.
pub fn hash3_cpu(cx: i32, cy: i32, cz: i32) -> (r: u32)
    ensures
        r == hash3(cx, cy, cz),
{
    spread(cx, 2654435761) ^ spread(cy, 805459861) ^ spread(cz, 3266489917)
}

/// The numbers of the first `n` systems that lie in the cell `c`, rising.
pub open spec fn members(cells: Seq<Cell>, c: Cell, n: int) -> Seq<u32>
    decreases n,
{
    if n <= 0 {
        Seq::empty()
    } else if cells[n - 1] == c {
        members(cells, c, n - 1).push((n - 1) as u32)
    } else {
        members(cells, c, n - 1)
    }
}

/// The members of a cell are the systems that lie in it.
pub proof fn lemma_members(cells: Seq<Cell>, c: Cell, n: int, x: u32)
    requires
        0 <= n <= cells.len(),
        n <= 0x1_0000_0000,
    ensures
        members(cells, c, n).contains(x) <==> x < n && cells[x as int] == c,
    decreases n,
{
    let m = members(cells, c, n);
    if n > 0 {
        lemma_members(cells, c, n - 1, x);
        let p = members(cells, c, n - 1);
        if cells[n - 1] == c {
            if x == n - 1 {
                assert(m[m.len() - 1] == x);
            } else {
                if p.contains(x) {
                    let k = choose|k: int| 0 <= k < p.len() && p[k] == x;
                    assert(m[k] == x);
                }
                if m.contains(x) {
                    let k = choose|k: int| 0 <= k < m.len() && m[k] == x;
                    assert(p[k] == x);
                }
            }
        }
    }
}

/// A cell as one number.
#[verifier::opaque]
pub open spec fn packed(c: Cell) -> int {
    (c.0 + 0x8000_0000) * 0x1_0000_0000_0000_0000 + (c.1 + 0x8000_0000) * 0x1_0000_0000 + (c.2
        + 0x8000_0000)
}

/// Two cells are never packed alike.
proof fn lemma_packed(a: Cell, b: Cell)
    ensures
        0 <= packed(a) <= u128::MAX,
        packed(a) == packed(b) ==> a == b,
{
    reveal(packed);
}

fn pack(c: Cell) -> (r: u128)
    ensures
        r == packed(c),
{
    proof {
        reveal(packed);
    }
    let x: u128 = (c.0 as i64 + 0x8000_0000) as u128;
    let y: u128 = (c.1 as i64 + 0x8000_0000) as u128;
    let z: u128 = (c.2 as i64 + 0x8000_0000) as u128;
    x * 0x1_0000_0000_0000_0000 + y * 0x1_0000_0000 + z
}

/// The systems of one cell.
pub struct Group {
    pub cell: Cell,
    pub nodes: Vec<u32>,
}

/// The number of systems in the first `n` groups.
pub open spec fn total(groups: Seq<Group>, n: int) -> nat
    decreases n,
{
    if n <= 0 {
        0
    } else {
        total(groups, n - 1) + groups[n - 1].nodes@.len()
    }
}

proof fn lemma_total_update(groups: Seq<Group>, k: int, g: Group, n: int)
    requires
        0 <= k < groups.len(),
        0 <= n <= groups.len(),
        g.nodes@.len() == groups[k].nodes@.len() + 1,
    ensures
        total(groups.update(k, g), n) == total(groups, n) + if k < n {
            1nat
        } else {
            0nat
        },
    decreases n,
{
    if n > 0 {
        lemma_total_update(groups, k, g, n - 1);
    }
}

proof fn lemma_total_push(groups: Seq<Group>, g: Group, n: int)
    requires
        0 <= n <= groups.len(),
    ensures
        total(groups.push(g), n) == total(groups, n),
    decreases n,
{
    if n > 0 {
        lemma_total_push(groups, g, n - 1);
    }
}

proof fn lemma_total_grows(groups: Seq<Group>, n: int, m: int)
    requires
        0 <= n <= m <= groups.len(),
    ensures
        total(groups, n) <= total(groups, m),
    decreases m,
{
    if n < m {
        lemma_total_grows(groups, n, m - 1);
    }
}

/// Systems grouped by cell.
pub struct CellIndex {
    pub groups: Vec<Group>,
    pub index: HashMap<u128, usize>,
}

impl CellIndex {
    /// The groups are the cells of the first `n` systems, each cell once.
    pub open spec fn groups_first(&self, cells: Seq<Cell>, n: int) -> bool {
        &&& forall|k: int|
            0 <= k < self.groups.len() ==> (#[trigger] self.groups@[k]).nodes@ == members(
                cells,
                self.groups@[k].cell,
                n,
            ) && self.groups@[k].nodes.len() > 0
        &&& forall|k: int, m: int|
            0 <= k < m < self.groups.len() ==> (#[trigger] self.groups@[k]).cell != (
            #[trigger] self.groups@[m]).cell
        &&& forall|k: int|
            0 <= k < self.groups.len() ==> self.index@.contains_key(
                packed((#[trigger] self.groups@[k]).cell) as u128,
            ) && self.index@[packed(self.groups@[k].cell) as u128] == k
        &&& forall|c: u128| #[trigger]
            self.index@.contains_key(c) ==> self.index@[c] < self.groups.len() && packed(
                self.groups@[self.index@[c] as int].cell,
            ) == c
        &&& forall|i: int|
            0 <= i < n ==> self.index@.contains_key(packed(#[trigger] cells[i]) as u128)
        &&& total(self.groups@, self.groups.len() as int) == n
    }

    /// The groups are the cells of all systems.
    pub open spec fn groups_all(&self, cells: Seq<Cell>) -> bool {
        self.groups_first(cells, cells.len() as int)
    }

    /// Groups the systems by cell; `cells` gives the cell of each.
    pub fn build(cells: &Vec<Cell>) -> (r: CellIndex)
        requires
            cells.len() <= SENTINEL,
        ensures
            r.groups_all(cells@),
    {
        let mut r = CellIndex { groups: Vec::new(), index: HashMap::new() };
        for i in 0..cells.len()
            invariant
                cells.len() <= SENTINEL,
                r.groups_first(cells@, i as int),
        {
            let c = cells[i];
            let key = pack(c);
            let ghost before = r;
            assert forall|d: Cell| #[trigger] packed(d) == packed(c) implies d == c by {
                lemma_packed(d, c);
            }
            assert forall|d: Cell| 0 <= #[trigger] packed(d) <= u128::MAX by {
                lemma_packed(d, d);
            }
            match r.index.get(&key) {
                Some(at) => {
                    let k: usize = *at;
                    assert(r.groups@[k as int].cell == c);
                    r.groups[k].nodes.push(i as u32);
                    proof {
                        lemma_total_update(
                            before.groups@,
                            k as int,
                            r.groups@[k as int],
                            before.groups.len() as int,
                        );
                        assert(r.groups@ =~= before.groups@.update(k as int, r.groups@[k as int]));
                    }
                },
                None => {
                    let k: usize = r.groups.len();
                    let mut nodes: Vec<u32> = Vec::new();
                    nodes.push(i as u32);
                    proof {
                        lemma_no_members(cells@, c, i as int);
                        lemma_total_push(
                            before.groups@,
                            (Group { cell: c, nodes }),
                            before.groups.len() as int,
                        );
                    }
                    r.groups.push(Group { cell: c, nodes });
                    r.index.insert(key, k);
                    assert(nodes_of(r.groups@[k as int]) == members(cells@, c, i + 1));
                },
            }
        }
        r
    }

    /// The systems of one cell; `None` where there are none.
    pub fn at(&self, c: Cell) -> (r: Option<&Vec<u32>>)
        ensures
            forall|cells: Seq<Cell>| #[trigger]
                self.groups_all(cells) ==> match r {
                    Some(v) => v@ == members(cells, c, cells.len() as int),
                    None => members(cells, c, cells.len() as int) == Seq::<u32>::empty(),
                },
    {
        let key = pack(c);
        assert forall|d: Cell| #[trigger] packed(d) == packed(c) implies d == c by {
            lemma_packed(d, c);
        }
        match self.index.get(&key) {
            Some(k) => {
                if *k < self.groups.len() {
                    Some(&self.groups[*k].nodes)
                } else {
                    None
                }
            },
            None => {
                proof {
                    assert forall|cells: Seq<Cell>| #[trigger]
                        self.groups_all(cells) implies members(cells, c, cells.len() as int)
                        == Seq::<u32>::empty() by {
                        lemma_no_members(cells, c, cells.len() as int);
                    }
                }
                None
            },
        }
    }

    /// The systems of the cube of five cells a side round `base`.
    pub fn near(&self, base: Cell) -> (r: Vec<u32>)
        requires
            inside(base),
        ensures
            forall|cells: Seq<Cell>| #[trigger]
                self.groups_all(cells) ==> r@ == near_first(cells, base, 125),
    {
        let mut r: Vec<u32> = Vec::new();
        for k in 0i32..125
            invariant
                inside(base),
                0 <= k <= 125,
                forall|cells: Seq<Cell>| #[trigger]
                    self.groups_all(cells) ==> r@ == near_first(cells, base, k as int),
        {
            let c = (base.0 + (k / 25 - 2), base.1 + (k / 5 % 5 - 2), base.2 + (k % 5 - 2));
            let ghost before = r@;
            match self.at(c) {
                Some(v) => {
                    for i in 0..v.len()
                        invariant
                            r@ == before + v@.take(i as int),
                    {
                        r.push(v[i]);
                        assert(v@.take(i + 1) =~= v@.take(i as int).push(v@[i as int]));
                    }
                    assert(v@.take(v@.len() as int) =~= v@);
                },
                None => {},
            }
            assert forall|cells: Seq<Cell>| #[trigger] self.groups_all(cells) implies r@
                == near_first(cells, base, k + 1) by {
                assert(c == neighbour(base, k as int));
                assert(before + Seq::<u32>::empty() =~= before);
            }
        }
        r
    }
}

/// The neighbouring cells of `c` have coordinates of 32 bits.
pub open spec fn inside(c: Cell) -> bool {
    &&& i32::MIN + 2 <= c.0 <= i32::MAX - 2
    &&& i32::MIN + 2 <= c.1 <= i32::MAX - 2
    &&& i32::MIN + 2 <= c.2 <= i32::MAX - 2
}

/// The `k`-th of the 125 cells round `base`.
pub open spec fn neighbour(base: Cell, k: int) -> Cell {
    (
        (base.0 + k / 25 - 2) as i32,
        (base.1 + k / 5 % 5 - 2) as i32,
        (base.2 + k % 5 - 2) as i32,
    )
}

/// The systems of the first `k` cells round `base`, cell by cell.
pub open spec fn near_first(cells: Seq<Cell>, base: Cell, k: int) -> Seq<u32>
    decreases k,
{
    if k <= 0 {
        Seq::empty()
    } else {
        near_first(cells, base, k - 1) + members(
            cells,
            neighbour(base, k - 1),
            cells.len() as int,
        )
    }
}

/// No two coordinates differ by more than two.
pub open spec fn close_to(a: Cell, b: Cell) -> bool {
    -2 <= a.0 - b.0 <= 2 && -2 <= a.1 - b.1 <= 2 && -2 <= a.2 - b.2 <= 2
}

/// The cube round a cell holds exactly the systems whose cells are no more
/// than two away on each axis.
pub proof fn law_near_is_the_cube(cells: Seq<Cell>, base: Cell, x: u32)
    requires
        cells.len() <= SENTINEL,
        inside(base),
    ensures
        near_first(cells, base, 125).contains(x) <==> x < cells.len() && close_to(
            cells[x as int],
            base,
        ),
{
    lemma_near_first(cells, base, 125, x);
    if x < cells.len() && close_to(cells[x as int], base) {
        let c = cells[x as int];
        let k = (c.0 - base.0 + 2) * 25 + (c.1 - base.1 + 2) * 5 + (c.2 - base.2 + 2);
        assert(neighbour(base, k) == c);
    }
}

/// The systems of the first cells round a cell are those that lie in them.
pub(crate) proof fn lemma_near_first(cells: Seq<Cell>, base: Cell, n: int, x: u32)
    requires
        cells.len() <= SENTINEL,
        0 <= n <= 125,
    ensures
        near_first(cells, base, n).contains(x) <==> x < cells.len() && exists|k: int|
            0 <= k < n && #[trigger] neighbour(base, k) == cells[x as int],
    decreases n,
{
    if n > 0 {
        lemma_near_first(cells, base, n - 1, x);
        let a = near_first(cells, base, n - 1);
        let b = members(cells, neighbour(base, n - 1), cells.len() as int);
        lemma_members(cells, neighbour(base, n - 1), cells.len() as int, x);
        let s = near_first(cells, base, n);
        if a.contains(x) {
            let k = choose|k: int| 0 <= k < a.len() && a[k] == x;
            assert(s[k] == x);
        }
        if b.contains(x) {
            let k = choose|k: int| 0 <= k < b.len() && b[k] == x;
            assert(s[a.len() + k] == x);
        }
        if s.contains(x) {
            let k = choose|k: int| 0 <= k < s.len() && s[k] == x;
            if k < a.len() {
                assert(a[k] == x);
            } else {
                assert(b[k - a.len()] == x);
            }
        }
    }
}

/// The systems of a group.
spec fn nodes_of(g: Group) -> Seq<u32> {
    g.nodes@
}

/// A cell in which no system lies has no members.
proof fn lemma_no_members(cells: Seq<Cell>, c: Cell, n: int)
    requires
        0 <= n <= cells.len(),
        forall|i: int| 0 <= i < n ==> #[trigger] cells[i] != c,
    ensures
        members(cells, c, n) == Seq::<u32>::empty(),
    decreases n,
{
    if n > 0 {
        lemma_no_members(cells, c, n - 1);
    }
}

/// One slot of the voxel table: a cell, and where its systems stand in the
/// flat list. A slot with the count `EMPTY` holds no cell.
#[derive(Clone, Copy)]
pub struct VoxelSlot {
    pub cx: i32,
    pub cy: i32,
    pub cz: i32,
    pub offset: u32,
    pub count: u32,
}

impl VoxelSlot {
    pub open spec fn cell(&self) -> Cell {
        (self.cx, self.cy, self.cz)
    }
}

/// The slots of a hash table with open addressing, and the systems of the
/// cells, cell after cell.
pub struct VoxelTable {
    pub table: Vec<VoxelSlot>,
    pub flat: Vec<u32>,
    pub table_mask: u32,
}

/// The slot that is `step` slots behind the slot `home`, round the table.
pub open spec fn slot_at(home: int, step: int, size: int) -> int {
    if home + step < size {
        home + step
    } else {
        home + step - size
    }
}

/// The slot at which the search for the cell `c` starts.
pub open spec fn home(c: Cell, size: int) -> int {
    (hash3(c.0, c.1, c.2) as int) % size
}

/// The slot of the cell `c`, sought from `step` slots behind its home until a
/// slot is empty or all have been seen.
pub open spec fn find(table: Seq<VoxelSlot>, c: Cell, step: int) -> Option<int>
    decreases table.len() - step,
{
    let at = slot_at(home(c, table.len() as int), step, table.len() as int);
    if step >= table.len() || table[at].count == EMPTY {
        None
    } else if table[at].cell() == c {
        Some(at)
    } else {
        find(table, c, step + 1)
    }
}

/// What a search in the table says of the cell `c`.
pub open spec fn found(t: &VoxelTable, c: Cell) -> Seq<u32> {
    match find(t.table@, c, 0) {
        Some(at) => t.flat@.subrange(
            t.table@[at].offset as int,
            t.table@[at].offset + t.table@[at].count,
        ),
        None => Seq::empty(),
    }
}

/// The number of slots that hold a cell.
pub open spec fn filled(table: Seq<VoxelSlot>) -> nat
    decreases table.len(),
{
    if table.len() == 0 {
        0
    } else {
        filled(table.drop_last()) + if table.last().count == EMPTY {
            0nat
        } else {
            1nat
        }
    }
}

proof fn lemma_filled_update(table: Seq<VoxelSlot>, i: int, slot: VoxelSlot)
    requires
        0 <= i < table.len(),
        table[i].count == EMPTY,
        slot.count != EMPTY,
    ensures
        filled(table.update(i, slot)) == filled(table) + 1,
    decreases table.len(),
{
    let t = table.update(i, slot);
    if i == table.len() - 1 {
        assert(t.drop_last() =~= table.drop_last());
    } else {
        lemma_filled_update(table.drop_last(), i, slot);
        assert(t.drop_last() =~= table.drop_last().update(i, slot));
    }
}

/// A table that is not full has an empty slot.
proof fn lemma_not_full(table: Seq<VoxelSlot>) -> (i: int)
    requires
        filled(table) < table.len(),
    ensures
        0 <= i < table.len(),
        table[i].count == EMPTY,
    decreases table.len(),
{
    if table.last().count == EMPTY {
        table.len() - 1
    } else {
        lemma_not_full(table.drop_last())
    }
}

proof fn lemma_all_empty(table: Seq<VoxelSlot>)
    requires
        forall|i: int| 0 <= i < table.len() ==> (#[trigger] table[i]).count == EMPTY,
    ensures
        filled(table) == 0,
    decreases table.len(),
{
    if table.len() > 0 {
        lemma_all_empty(table.drop_last());
    }
}

/// A power of two.
pub open spec fn is_power_of_two(n: int) -> bool {
    exists|k: nat| n == #[trigger] vstd::arithmetic::power2::pow2(k)
}

/// A slot number kept by the mask of a table is one kept by division.
pub proof fn law_mask_is_remainder(x: u32, size: u32)
    requires
        is_power_of_two(size as int),
    ensures
        (x & sub_one(size)) as int == x as int % size as int,
{
    let k = choose|k: nat| size as int == #[trigger] vstd::arithmetic::power2::pow2(k);
    vstd::arithmetic::power2::lemma2_to64();
    if k >= 32 {
        if k > 32 {
            vstd::arithmetic::power2::lemma_pow2_strictly_increases(32, k);
        }
    }
    vstd::bits::lemma_u32_low_bits_mask_is_mod(x, k);
}

/// The mask of a table with `size` slots.
pub open spec fn sub_one(size: u32) -> u32 {
    (size - 1) as u32
}

/// The smallest table for `cells` cells: a power of two, sixteen or more, of
/// which no more than a quarter is filled.
pub open spec fn is_table_size(size: int, cells: int) -> bool {
    &&& is_power_of_two(size)
    &&& size >= 16
    &&& size >= 4 * cells
    &&& size == 16 || size < 8 * cells
}

fn table_size(cells: usize) -> (size: usize)
    requires
        cells <= 0x2000_0000,
    ensures
        is_table_size(size as int, cells as int),
        size <= 0x8000_0000,
{
    let mut size: usize = 16;
    let ghost mut k: nat = 4;
    proof {
        vstd::arithmetic::power2::lemma2_to64();
        assert(size as int == vstd::arithmetic::power2::pow2(k));
    }
    while size < 4 * cells
        invariant
            cells <= 0x2000_0000,
            size as int == vstd::arithmetic::power2::pow2(k),
            4 <= k <= 31,
            size >= 16,
            size <= 0x8000_0000,
            size == 16 || size < 8 * cells,
        decreases 8 * cells - size,
    {
        proof {
            vstd::arithmetic::power2::lemma2_to64();
            vstd::arithmetic::power2::lemma_pow2_unfold((k + 1) as nat);
            if k == 31 {
                assert(size == 0x8000_0000);
            }
            k = (k + 1) as nat;
            vstd::arithmetic::power2::lemma2_to64();
            if k < 31 {
                vstd::arithmetic::power2::lemma_pow2_strictly_increases(k, 31);
            }
        }
        size = size * 2;
    }
    size
}

/// The table holds the first `n` groups: each filled slot is one of them, and
/// the slots from its home up to it are filled.
spec fn holds(t: Seq<VoxelSlot>, flat: Seq<u32>, groups: Seq<Group>, at: Seq<int>, n: int) -> bool {
    &&& at.len() == n
    &&& filled(t) == n
    &&& forall|k: int|
        0 <= k < n ==> {
            let p = #[trigger] at[k];
            &&& 0 <= p < t.len()
            &&& t[p].cell() == groups[k].cell
            &&& t[p].count != EMPTY
            &&& t[p].count == groups[k].nodes@.len()
            &&& t[p].offset + t[p].count <= flat.len()
            &&& flat.subrange(t[p].offset as int, t[p].offset + t[p].count) == groups[k].nodes@
            &&& reached(t, groups[k].cell, p)
        }
    &&& forall|p: int|
        0 <= p < t.len() && (#[trigger] t[p]).count != EMPTY ==> exists|k: int|
            0 <= k < n && #[trigger] at[k] == p
}

/// The slots from the home of `c` up to `p` are filled.
spec fn reached(t: Seq<VoxelSlot>, c: Cell, p: int) -> bool {
    exists|s: int| #[trigger] reached_in(t, c, p, s)
}

spec fn reached_in(t: Seq<VoxelSlot>, c: Cell, p: int, s: int) -> bool {
    let size = t.len() as int;
    &&& 0 <= s < size
    &&& slot_at(home(c, size), s, size) == p
    &&& forall|j: int|
        0 <= j < s ==> t[#[trigger] slot_at(home(c, size), j, size)].count != EMPTY
}

/// A search goes on from a filled slot of another cell.
proof fn lemma_find_skips(t: Seq<VoxelSlot>, c: Cell, s: int)
    requires
        t.len() > 0,
        0 <= s <= t.len(),
        forall|j: int|
            0 <= j < s ==> {
                let p = #[trigger] slot_at(home(c, t.len() as int), j, t.len() as int);
                t[p].count != EMPTY && t[p].cell() != c
            },
    ensures
        find(t, c, 0) == find(t, c, s),
    decreases s,
{
    if s > 0 {
        lemma_find_skips(t, c, s - 1);
        let p = slot_at(home(c, t.len() as int), s - 1, t.len() as int);
        assert(t[p].count != EMPTY && t[p].cell() != c);
    }
}

/// A search finds a cell that the table holds.
proof fn lemma_finds(
    t: Seq<VoxelSlot>,
    flat: Seq<u32>,
    groups: Seq<Group>,
    at: Seq<int>,
    n: int,
    k: int,
)
    requires
        holds(t, flat, groups, at, n),
        0 <= k < n <= groups.len(),
        forall|i: int, j: int|
            0 <= i < j < groups.len() ==> (#[trigger] groups[i]).cell != (#[trigger] groups[j]).cell,
    ensures
        find(t, groups[k].cell, 0) == Some(at[k]),
{
    let c = groups[k].cell;
    let p = at[k];
    assert(reached(t, c, p));
    let s = choose|s: int| #[trigger] reached_in(t, c, p, s);
    let size = t.len() as int;
    let h = home(c, size);
    assert(0 <= h < size);
    assert forall|j: int| 0 <= j < s implies {
        let q = #[trigger] slot_at(h, j, size);
        t[q].count != EMPTY && t[q].cell() != c
    } by {
        let q = slot_at(h, j, size);
        assert(0 <= q < size);
        assert(t[q].count != EMPTY);
        let m = choose|m: int| 0 <= m < n && #[trigger] at[m] == q;
        if m == k {
            assert(q == p);
        } else if m < k {
            assert(groups[m].cell != groups[k].cell);
        } else {
            assert(groups[k].cell != groups[m].cell);
        }
    }
    lemma_find_skips(t, c, s);
}

/// A search finds no cell that the table does not hold.
proof fn lemma_finds_not(
    t: Seq<VoxelSlot>,
    flat: Seq<u32>,
    groups: Seq<Group>,
    at: Seq<int>,
    n: int,
    c: Cell,
    s: int,
)
    requires
        holds(t, flat, groups, at, n),
        t.len() > 0,
        0 <= n <= groups.len(),
        forall|i: int| 0 <= i < groups.len() ==> (#[trigger] groups[i]).cell != c,
        0 <= s <= t.len(),
    ensures
        find(t, c, s) is None,
    decreases t.len() - s,
{
    if s < t.len() {
        lemma_finds_not(t, flat, groups, at, n, c, s + 1);
        let size = t.len() as int;
        let p = slot_at(home(c, size), s, size);
        assert(0 <= home(c, size) < size);
        if t[p].count != EMPTY {
            let m = choose|m: int| 0 <= m < n && #[trigger] at[m] == p;
            assert(groups[m].cell != c);
        }
    }
}

/// An empty slot, sought from the home of `c`.
fn free_slot(table: &Vec<VoxelSlot>, c: Cell) -> (p: usize)
    requires
        0 < table.len() <= 0x8000_0000,
        filled(table@) < table.len(),
    ensures
        p < table.len(),
        table@[p as int].count == EMPTY,
        reached(table@, c, p as int),
{
    let size: usize = table.len();
    let start: usize = (hash3_cpu(c.0, c.1, c.2) as usize) % size;
    let mut p: usize = start;
    let ghost mut s: int = 0;
    let ghost e = lemma_not_full(table@);
    let ghost es = if e >= start {
        e - start
    } else {
        e + size - start
    };
    assert(slot_at(start as int, es, size as int) == e);
    while table[p].count != EMPTY
        invariant
            size == table.len(),
            0 < size <= 0x8000_0000,
            start < size,
            start == home(c, size as int),
            p == slot_at(start as int, s, size as int),
            p < size,
            0 <= s <= es < size,
            slot_at(start as int, es, size as int) == e,
            0 <= e < size,
            table@[e].count == EMPTY,
            forall|j: int|
                0 <= j < s ==> table@[#[trigger] slot_at(start as int, j, size as int)].count
                    != EMPTY,
        decreases es - s,
    {
        proof {
            s = s + 1;
        }
        p = if p + 1 == size {
            0
        } else {
            p + 1
        };
    }
    assert(reached_in(table@, c, p as int, s));
    p
}

impl VoxelTable {
    /// Builds the table of the cells of `cells`, in which each is found with
    /// exactly the systems that lie in it. No more than a quarter of the slots
    /// is filled.
    pub(crate) fn build(index: &CellIndex, Ghost(cells): Ghost<Seq<Cell>>) -> (r: VoxelTable)
        requires
            index.groups_all(cells),
            cells.len() < SENTINEL,
            index.groups.len() <= 0x2000_0000,
        ensures
            is_table_size(r.table.len() as int, index.groups.len() as int),
            filled(r.table@) == index.groups.len(),
            r.table_mask + 1 == r.table.len(),
            r.flat.len() > 0,
            forall|c: Cell| #[trigger] found(&r, c) == members(cells, c, cells.len() as int),
    {
        let groups = &index.groups;
        let size: usize = table_size(groups.len());
        let empty = VoxelSlot { cx: 0, cy: 0, cz: 0, offset: 0, count: EMPTY };
        let mut table: Vec<VoxelSlot> = Vec::new();
        while table.len() < size
            invariant
                table.len() <= size,
                empty.count == EMPTY,
                forall|i: int| 0 <= i < table.len() ==> (#[trigger] table@[i]).count == EMPTY,
            decreases size - table.len(),
        {
            table.push(empty);
        }
        let mut flat: Vec<u32> = Vec::new();
        let ghost mut at: Seq<int> = Seq::empty();
        proof {
            lemma_all_empty(table@);
        }
        for i in 0..groups.len()
            invariant
                index.groups_all(cells),
                cells.len() < SENTINEL,
                groups@ == index.groups@,
                groups.len() <= 0x2000_0000,
                table.len() == size,
                16 <= size <= 0x8000_0000,
                size >= 4 * groups.len(),
                flat.len() == total(groups@, i as int),
                holds(table@, flat@, groups@, at, i as int),
        {
            proof {
                lemma_total_grows(groups@, i + 1, groups.len() as int);
            }
            let g = &groups[i];
            let offset: u32 = flat.len() as u32;
            let count: u32 = g.nodes.len() as u32;
            let ghost flat0 = flat@;
            for k in 0..g.nodes.len()
                invariant
                    flat@ == flat0 + g.nodes@.take(k as int),
            {
                flat.push(g.nodes[k]);
                assert(g.nodes@.take(k + 1) =~= g.nodes@.take(k as int).push(g.nodes@[k as int]));
            }
            assert(g.nodes@.take(g.nodes@.len() as int) =~= g.nodes@);
            let c = g.cell;
            let p = free_slot(&table, c);
            let ghost t0 = table@;
            let slot = VoxelSlot { cx: c.0, cy: c.1, cz: c.2, offset, count };
            table[p] = slot;
            proof {
                lemma_filled_update(t0, p as int, slot);
                let at0 = at;
                at = at.push(p as int);
                assert(flat@.subrange(offset as int, offset + count) =~= g.nodes@);
                assert forall|k: int| 0 <= k < i + 1 implies {
                    let q = #[trigger] at[k];
                    &&& 0 <= q < table.len()
                    &&& table@[q].cell() == groups@[k].cell
                    &&& table@[q].count != EMPTY
                    &&& table@[q].count == groups@[k].nodes@.len()
                    &&& table@[q].offset + table@[q].count <= flat.len()
                    &&& flat@.subrange(table@[q].offset as int, table@[q].offset + table@[q].count)
                        == groups@[k].nodes@
                    &&& reached(table@, groups@[k].cell, q)
                } by {
                    let q = at[k];
                    if k < i {
                        assert(q == at0[k]);
                        assert(q != p);
                        assert(flat@.subrange(
                            table@[q].offset as int,
                            table@[q].offset + table@[q].count,
                        ) =~= flat0.subrange(
                            table@[q].offset as int,
                            table@[q].offset + table@[q].count,
                        ));
                        assert(reached(t0, groups@[k].cell, q));
                        let s = choose|s: int| #[trigger] reached_in(t0, groups@[k].cell, q, s);
                        assert(reached_in(table@, groups@[k].cell, q, s));
                    } else {
                        let s = choose|s: int| #[trigger] reached_in(t0, c, q, s);
                        assert(reached_in(table@, c, q, s));
                    }
                }
                assert forall|q: int|
                    0 <= q < table.len() && (#[trigger] table@[q]).count != EMPTY implies exists|
                    k: int,
                |
                    0 <= k < i + 1 && #[trigger] at[k] == q by {
                    if q == p {
                        assert(at[i as int] == q);
                    } else {
                        assert(t0[q].count != EMPTY);
                        let k = choose|k: int| 0 <= k < i && #[trigger] at0[k] == q;
                        assert(at[k] == q);
                    }
                }
            }
        }
        let ghost flat1 = flat@;
        if flat.len() == 0 {
            flat.push(0);
        }
        let r = VoxelTable { table, flat, table_mask: (size - 1) as u32 };
        proof {
            let n = groups.len() as int;
            assert forall|c: Cell| #[trigger] found(&r, c) == members(
                cells,
                c,
                cells.len() as int,
            ) by {
                if exists|k: int| 0 <= k < n && (#[trigger] groups@[k]).cell == c {
                    let k = choose|k: int| 0 <= k < n && (#[trigger] groups@[k]).cell == c;
                    lemma_finds(table@, flat1, groups@, at, n, k);
                    let p = at[k];
                    assert(r.flat@.subrange(table@[p].offset as int, table@[p].offset
                        + table@[p].count) =~= flat1.subrange(
                        table@[p].offset as int,
                        table@[p].offset + table@[p].count,
                    ));
                } else {
                    lemma_finds_not(table@, flat1, groups@, at, n, c, 0);
                    assert forall|i: int| 0 <= i < cells.len() implies #[trigger] cells[i] != c by {
                        lemma_packed(c, c);
                        assert(index.index@.contains_key(packed(cells[i]) as u128));
                        let k = index.index@[packed(cells[i]) as u128] as int;
                        lemma_packed(groups@[k].cell, cells[i]);
                        lemma_packed(cells[i], cells[i]);
                    }
                    lemma_no_members(cells, c, cells.len() as int);
                }
            }
        }
        r
    }
}

/// There are no more groups than cells.
pub(crate) proof fn lemma_groups_are_cells(index: &CellIndex, cells: Seq<Cell>)
    requires
        index.groups_all(cells),
        cells.len() <= SENTINEL,
    ensures
        index.groups.len() <= cells.to_set().len(),
{
    let g = index.groups@.map_values(|g: Group| g.cell);
    assert(g.no_duplicates());
    assert forall|c: Cell| #[trigger] g.to_set().contains(c) implies cells.to_set().contains(c) by {
        let k = choose|k: int| 0 <= k < g.len() && g[k] == c;
        let x = index.groups@[k].nodes@[0];
        assert(members(cells, c, cells.len() as int).contains(x));
        lemma_members(cells, c, cells.len() as int, x);
        assert(cells[x as int] == c);
    }
    g.unique_seq_to_set();
    vstd::seq_lib::seq_to_set_is_finite(cells);
    vstd::set_lib::lemma_len_subset(g.to_set(), cells.to_set());
}

} // verus!
