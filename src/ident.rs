use vstd::prelude::*;

verus! {

/// The text of the version-5 UUID that the OID namespace gives to `name`.
pub uninterp spec fn oid_v5_text(name: Seq<u8>) -> Seq<char>;

/// Relies on `uuid::Uuid::new_v5` in the OID namespace and on the `Display`
/// text of the UUID: the text depends on the name bytes alone.
#[verifier::external_body]
fn oid_v5_string(name: &[u8]) -> (r: String)
    ensures
        r@ == oid_v5_text(name@),
{
    uuid::Uuid::new_v5(&uuid::Uuid::NAMESPACE_OID, name).to_string()
}

/// The decimal digits of `n` in ASCII, most significant first.
pub open spec fn decimal(n: nat) -> Seq<u8>
    decreases n,
{
    if n < 10 {
        seq![(48 + n) as u8]
    } else {
        decimal(n / 10).push((48 + n % 10) as u8)
    }
}

/// The seed of a column or cell: the block height plus the cell's number.
pub open spec fn seed_of(block_height: nat, cell_number: nat) -> nat {
    block_height + cell_number
}

/// The identifier of the column or cell whose seed is `seed`.
pub open spec fn cell_id(seed: nat) -> Seq<char> {
    oid_v5_text(decimal(seed))
}

/// The bytes hashed for a registry: the text `reg:` followed by the name in
/// UTF-8. The leading letter keeps it apart from every cell's decimal seed.
pub open spec fn registry_key(name: Seq<char>) -> Seq<u8> {
    seq![114u8, 101u8, 103u8, 58u8] + vstd::utf8::encode_utf8(name)
}

/// The identifier of the registry named `name`.
pub open spec fn registry_id(name: Seq<char>) -> Seq<char> {
    oid_v5_text(registry_key(name))
}

/// Every decimal text is non-empty and starts with an ASCII digit.
pub proof fn lemma_decimal_starts_with_digit(n: nat)
    ensures
        decimal(n).len() >= 1,
        48 <= decimal(n)[0] <= 57,
    decreases n,
{
    if n >= 10 {
        lemma_decimal_starts_with_digit(n / 10);
    }
}

/// Two numbers with the same decimal text are equal.
pub proof fn lemma_decimal_injective(a: nat, b: nat)
    requires
        decimal(a) == decimal(b),
    ensures
        a == b,
    decreases a,
{
    if a >= 10 {
        lemma_decimal_starts_with_digit(a / 10);
    }
    if b >= 10 {
        lemma_decimal_starts_with_digit(b / 10);
    }
    if a >= 10 && b >= 10 {
        assert(decimal(a).drop_last() =~= decimal(a / 10));
        assert(decimal(b).drop_last() =~= decimal(b / 10));
        lemma_decimal_injective(a / 10, b / 10);
        assert(decimal(a).last() == (48 + a % 10) as u8);
        assert(decimal(b).last() == (48 + b % 10) as u8);
        assert(a % 10 == b % 10);
        assert(a == 10 * (a / 10) + a % 10);
        assert(b == 10 * (b / 10) + b % 10);
    } else if a < 10 && b < 10 {
        assert(decimal(a)[0] == (48 + a) as u8);
        assert(decimal(b)[0] == (48 + b) as u8);
    } else if a < 10 {
        assert(decimal(a).len() == 1);
        assert(decimal(b).len() >= 2);
    } else {
        assert(decimal(b).len() == 1);
        assert(decimal(a).len() >= 2);
    }
}

/// Registries with different names hash different bytes.
pub proof fn lemma_registry_key_injective(a: Seq<char>, b: Seq<char>)
    requires
        registry_key(a) == registry_key(b),
    ensures
        a == b,
{
    let ka = registry_key(a);
    assert(ka.subrange(4, ka.len() as int) =~= vstd::utf8::encode_utf8(a));
    assert(registry_key(b).subrange(4, ka.len() as int) =~= vstd::utf8::encode_utf8(b));
    vstd::utf8::encode_utf8_decode_utf8(a);
    vstd::utf8::encode_utf8_decode_utf8(b);
}

/// What is hashed for a registry never equals what is hashed for a column or
/// cell, whatever the name and the seed: one starts with a letter, the other
/// with a digit.
pub proof fn lemma_registry_key_not_seed(name: Seq<char>, seed: nat)
    ensures
        registry_key(name) != decimal(seed),
{
    lemma_decimal_starts_with_digit(seed);
    assert(registry_key(name)[0] == 114u8);
}

/// The decimal digits of `n` in ASCII.
pub fn decimal_bytes(n: u64) -> (r: Vec<u8>)
    ensures
        r@ == decimal(n as nat),
    decreases n,
{
    if n < 10 {
        let mut v: Vec<u8> = Vec::new();
        v.push((48 + n) as u8);
        assert(v@ =~= decimal(n as nat));
        v
    } else {
        let mut v = decimal_bytes(n / 10);
        v.push((48 + n % 10) as u8);
        v
    }
}

/// The identifier of a column or cell, made from the block height and the
/// cell's number.
pub fn cell_identifier(block_height: u64, cell_number: u64) -> (r: String)
    requires
        block_height + cell_number <= u64::MAX,
    ensures
        r@ == cell_id(seed_of(block_height as nat, cell_number as nat)),
{
    let digits = decimal_bytes(block_height + cell_number);
    oid_v5_string(digits.as_slice())
}

/// The identifier of a registry, made from its name.
pub fn registry_identifier(name: &String) -> (r: String)
    ensures
        r@ == registry_id(name@),
{
    let bytes = name.as_str().as_bytes();
    let mut key: Vec<u8> = Vec::new();
    key.push(114u8);
    key.push(101u8);
    key.push(103u8);
    key.push(58u8);
    let ghost prefix = key@;
    let mut i: usize = 0;
    while i < bytes.len()
        invariant
            0 <= i <= bytes@.len(),
            prefix == seq![114u8, 101u8, 103u8, 58u8],
            key@ == prefix + bytes@.subrange(0, i as int),
        decreases bytes@.len() - i,
    {
        key.push(bytes[i]);
        i = i + 1;
        assert(key@ =~= prefix + bytes@.subrange(0, i as int));
    }
    assert(bytes@.subrange(0, i as int) =~= bytes@);
    assert(key@ =~= registry_key(name@));
    oid_v5_string(key.as_slice())
}

/// Seeds never repeat across a run of registry creations. Creation `k` happens
/// at height `heights[k]` and numbers its cells from `counters[k]` up to, not
/// including, `counters[k + 1]`; heights never decrease and counters never
/// decrease. Then two distinct cells, in the same creation or in two of them,
/// have distinct seeds.
pub proof fn lemma_seeds_unique(heights: Seq<nat>, counters: Seq<nat>)
    requires
        counters.len() == heights.len() + 1,
        forall|i: int, j: int| 0 <= i < j < heights.len() ==> heights[i] <= heights[j],
        forall|i: int, j: int| 0 <= i < j < counters.len() ==> counters[i] <= counters[j],
    ensures
        forall|k1: int, k2: int, a: nat, b: nat|
            0 <= k1 < heights.len() && 0 <= k2 < heights.len() && counters[k1] <= a < counters[k1 + 1]
                && counters[k2] <= b < counters[k2 + 1] && (k1 != k2 || a != b) ==> seed_of(heights[k1], a)
                != seed_of(heights[k2], b),
{
    assert forall|k1: int, k2: int, a: nat, b: nat|
        0 <= k1 < heights.len() && 0 <= k2 < heights.len() && counters[k1] <= a < counters[k1 + 1]
            && counters[k2] <= b < counters[k2 + 1] && (k1 != k2 || a != b) implies seed_of(heights[k1], a)
            != seed_of(heights[k2], b) by {
        if k1 < k2 {
            assert(counters[k1 + 1] <= counters[k2]);
            assert(heights[k1] <= heights[k2]);
        } else if k2 < k1 {
            assert(counters[k2 + 1] <= counters[k1]);
            assert(heights[k2] <= heights[k1]);
        }
    }
}

/// Across a run of registry creations, no two identifiers are hashed from the
/// same bytes. Creation `k` names its registry `names[k]`, happens at height
/// `heights[k]` and numbers its columns and cells from `counters[k]` up to,
/// not including, `counters[k + 1]`; heights and counters never decrease and
/// the names are distinct. Then the cells' decimal seeds differ pairwise, the
/// registries' keys differ pairwise, and no registry key is a cell's seed text.
pub proof fn lemma_hash_inputs_distinct(heights: Seq<nat>, counters: Seq<nat>, names: Seq<Seq<char>>)
    requires
        counters.len() == heights.len() + 1,
        names.len() == heights.len(),
        forall|i: int, j: int| 0 <= i < j < heights.len() ==> heights[i] <= heights[j],
        forall|i: int, j: int| 0 <= i < j < counters.len() ==> counters[i] <= counters[j],
        forall|i: int, j: int| 0 <= i < j < names.len() ==> names[i] != names[j],
    ensures
        forall|k1: int, k2: int, a: nat, b: nat|
            0 <= k1 < heights.len() && 0 <= k2 < heights.len() && counters[k1] <= a < counters[k1 + 1]
                && counters[k2] <= b < counters[k2 + 1] && (k1 != k2 || a != b) ==> decimal(
                seed_of(heights[k1], a),
            ) != decimal(seed_of(heights[k2], b)),
        forall|k1: int, k2: int|
            0 <= k1 < names.len() && 0 <= k2 < names.len() && k1 != k2 ==> registry_key(names[k1])
                != registry_key(names[k2]),
        forall|k: int, n: nat| 0 <= k < names.len() ==> registry_key(names[k]) != decimal(n),
{
    lemma_seeds_unique(heights, counters);
    assert forall|k1: int, k2: int, a: nat, b: nat|
        0 <= k1 < heights.len() && 0 <= k2 < heights.len() && counters[k1] <= a < counters[k1 + 1]
            && counters[k2] <= b < counters[k2 + 1] && (k1 != k2 || a != b) implies decimal(
            seed_of(heights[k1], a),
        ) != decimal(seed_of(heights[k2], b)) by {
        if decimal(seed_of(heights[k1], a)) == decimal(seed_of(heights[k2], b)) {
            lemma_decimal_injective(seed_of(heights[k1], a), seed_of(heights[k2], b));
        }
    }
    assert forall|k1: int, k2: int|
        0 <= k1 < names.len() && 0 <= k2 < names.len() && k1 != k2 implies registry_key(names[k1])
            != registry_key(names[k2]) by {
        if registry_key(names[k1]) == registry_key(names[k2]) {
            lemma_registry_key_injective(names[k1], names[k2]);
            if k1 < k2 {
                assert(names[k1] != names[k2]);
            } else {
                assert(names[k2] != names[k1]);
            }
        }
    }
    assert forall|k: int, n: nat| 0 <= k < names.len() implies registry_key(names[k]) != decimal(n) by {
        lemma_registry_key_not_seed(names[k], n);
    }
}

} // verus!
