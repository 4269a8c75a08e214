//! The configuration record: two descriptor byte strings joined by a single
//! `|` delimiter. A record is well formed exactly when it splits into two
//! non-empty delimiter-free parts.

use vstd::prelude::*;

verus! {

/// The field delimiter, the ASCII code of `|`.
pub const DELIM: u8 = 124;

/// The errors the provisioner can surface. Each run aborts on the first one.
#[derive(Debug, Clone, Copy, PartialEq, Eq, Structural)]
pub enum ProvisionError {
    /// The configuration record does not split into exactly two non-empty fields.
    ConfigFormat,
    /// A field is not a valid descriptor for the target network.
    DescriptorParse,
    /// The random seed was rejected by master-key derivation.
    KeyDerivation,
    /// The configuration file could not be created or written.
    Persistence,
    /// The chain-state store could not be opened.
    StoreOpen,
    /// The block-explorer request failed.
    NetworkScan,
}

/// `s` splits as `external | DELIM | internal` with both parts non-empty and delimiter-free.
pub open spec fn is_record_split(s: Seq<u8>, external: Seq<u8>, internal: Seq<u8>) -> bool {
    &&& s == external + seq![DELIM] + internal
    &&& !external.contains(DELIM)
    &&& !internal.contains(DELIM)
    &&& external.len() > 0
    &&& internal.len() > 0
}

/// A record is well formed when some such split exists (it is then unique).
pub open spec fn well_formed_record(s: Seq<u8>) -> bool {
    exists|p: (Seq<u8>, Seq<u8>)| is_record_split(s, p.0, p.1)
}

/// The two fields of a well-formed record.
pub open spec fn record_parts(s: Seq<u8>) -> (Seq<u8>, Seq<u8>) {
    choose|p: (Seq<u8>, Seq<u8>)| is_record_split(s, p.0, p.1)
}

/// In a split record the delimiter occurs exactly once, at the end of the
/// first part, and the parts are the corresponding subranges.
pub proof fn lemma_split_positions(s: Seq<u8>, external: Seq<u8>, internal: Seq<u8>)
    requires
        is_record_split(s, external, internal),
    ensures
        s.len() == external.len() + 1 + internal.len(),
        forall|k: int| 0 <= k < s.len() ==> (s[k] == DELIM <==> k == external.len()),
        external == s.subrange(0, external.len() as int),
        internal == s.subrange(external.len() + 1 as int, s.len() as int),
{
    assert forall|k: int| 0 <= k < s.len() implies (s[k] == DELIM <==> k == external.len()) by {
        if k < external.len() {
            assert(s[k] == external[k]);
            if s[k] == DELIM {
                assert(external.contains(DELIM));
            }
        } else if k == external.len() {
            assert(s[k] == seq![DELIM][0]);
        } else {
            assert(s[k] == internal[k - external.len() - 1]);
            if s[k] == DELIM {
                assert(internal.contains(DELIM));
            }
        }
    }
    assert(external =~= s.subrange(0, external.len() as int));
    assert(internal =~= s.subrange(external.len() + 1 as int, s.len() as int));
}

/// The split of a well-formed record is unique, so `record_parts` returns it.
pub proof fn lemma_record_parts_unique(s: Seq<u8>, external: Seq<u8>, internal: Seq<u8>)
    requires
        is_record_split(s, external, internal),
    ensures
        well_formed_record(s),
        record_parts(s) == (external, internal),
{
    let w = (external, internal);
    assert(is_record_split(s, w.0, w.1));
    let p = record_parts(s);
    assert(is_record_split(s, p.0, p.1));
    lemma_split_positions(s, external, internal);
    lemma_split_positions(s, p.0, p.1);
    assert(s[external.len() as int] == DELIM);
    assert(p.0.len() == external.len());
    assert(p.0 == external);
    assert(p.1 == internal);
}

/// Join two fields into a record.
pub fn encode_record(external: &Vec<u8>, internal: &Vec<u8>) -> (r: Vec<u8>)
    ensures
        r@ == external@ + seq![DELIM] + internal@,
{
    let mut r: Vec<u8> = Vec::new();
    let mut k: usize = 0;
    while k < external.len()
        invariant
            k <= external.len(),
            r@ == external@.subrange(0, k as int),
        decreases external.len() - k,
    {
        r.push(external[k]);
        proof {
            assert(r@ =~= external@.subrange(0, k + 1));
        }
        k = k + 1;
    }
    proof {
        assert(r@ =~= external@);
    }
    r.push(DELIM);
    proof {
        assert(r@ =~= external@ + seq![DELIM] + internal@.subrange(0, 0));
    }
    let mut j: usize = 0;
    while j < internal.len()
        invariant
            j <= internal.len(),
            r@ == external@ + seq![DELIM] + internal@.subrange(0, j as int),
        decreases internal.len() - j,
    {
        r.push(internal[j]);
        proof {
            assert(r@ =~= external@ + seq![DELIM] + internal@.subrange(0, j + 1));
        }
        j = j + 1;
    }
    proof {
        assert(r@ =~= external@ + seq![DELIM] + internal@);
    }
    r
}

/// Whether the byte string holds the field delimiter anywhere.
pub fn has_delim(s: &Vec<u8>) -> (r: bool)
    ensures
        r == s@.contains(DELIM),
{
    let mut k: usize = 0;
    while k < s.len()
        invariant
            k <= s@.len(),
            forall|j: int| 0 <= j < k ==> s@[j] != DELIM,
        decreases s@.len() - k,
    {
        if s[k] == DELIM {
            proof {
                assert(s@[k as int] == DELIM);
            }
            return true;
        }
        k = k + 1;
    }
    proof {
        if s@.contains(DELIM) {
            let j = choose|j: int| 0 <= j < s@.len() && s@[j] == DELIM;
            assert(false);
        }
    }
    false
}

/// Split a record into its two fields, or report that it is malformed.
/// The error comes exactly when no split into two non-empty
/// delimiter-free fields exists.
pub fn parse_record(content: &Vec<u8>) -> (r: Result<(Vec<u8>, Vec<u8>), ProvisionError>)
    ensures
        match r {
            Ok(p) => {
                &&& well_formed_record(content@)
                &&& p.0@ == record_parts(content@).0
                &&& p.1@ == record_parts(content@).1
            },
            Err(e) => {
                &&& !well_formed_record(content@)
                &&& e == ProvisionError::ConfigFormat
            },
        },
{

    let n: usize = content.len();
    let mut pos: usize = 0;
    let mut found = false;
    let mut k: usize = 0;
    while k < n
        invariant
            n == content@.len(),
            k <= n,
            found ==> pos < k && content@[pos as int] == DELIM,
            forall|j: int| 0 <= j < k && j != pos ==> content@[j] != DELIM,
            !found ==> forall|j: int| 0 <= j < k ==> content@[j] != DELIM,
        decreases n - k,
    {
        if content[k] == DELIM {
            if found {
                proof {
                    if well_formed_record(content@) {
                        let p = record_parts(content@);
                        assert(is_record_split(content@, p.0, p.1));
                        lemma_split_positions(content@, p.0, p.1);
                        assert(pos == p.0.len());
                        assert(k == p.0.len());
                        assert(false);
                    }
                }
                return Err(ProvisionError::ConfigFormat);
            }
            found = true;
            pos = k;
        }
        k = k + 1;
    }
    if !found {
        proof {
            if well_formed_record(content@) {
                let p = record_parts(content@);
                assert(is_record_split(content@, p.0, p.1));
                lemma_split_positions(content@, p.0, p.1);
                assert(content@[p.0.len() as int] == DELIM);
                assert(false);
            }
        }
        return Err(ProvisionError::ConfigFormat);
    }
    if pos == 0 || pos + 1 == n {
        proof {
            if well_formed_record(content@) {
                let p = record_parts(content@);
                assert(is_record_split(content@, p.0, p.1));
                lemma_split_positions(content@, p.0, p.1);
                assert(pos == p.0.len());
                assert(false);
            }
        }
        return Err(ProvisionError::ConfigFormat);
    }
    let mut first: Vec<u8> = Vec::new();
    let mut a: usize = 0;
    while a < pos
        invariant
            pos < n,
            n == content@.len(),
            a <= pos,
            first@ == content@.subrange(0, a as int),
        decreases pos - a,
    {
        first.push(content[a]);
        proof {
            assert(first@ =~= content@.subrange(0, a + 1));
        }
        a = a + 1;
    }
    let mut second: Vec<u8> = Vec::new();
    let mut b: usize = pos + 1;
    while b < n
        invariant
            pos + 1 <= b <= n,
            n == content@.len(),
            second@ == content@.subrange(pos + 1, b as int),
        decreases n - b,
    {
        second.push(content[b]);
        proof {
            assert(second@ =~= content@.subrange(pos + 1, b + 1));
        }
        b = b + 1;
    }
    proof {
        assert(content@ =~= first@ + seq![DELIM] + second@);
        assert forall|j: int| 0 <= j < first@.len() implies first@[j] != DELIM by {
            assert(first@[j] == content@[j]);
        }
        if first@.contains(DELIM) {
            let j = choose|j: int| 0 <= j < first@.len() && first@[j] == DELIM;
            assert(false);
        }
        assert forall|j: int| 0 <= j < second@.len() implies second@[j] != DELIM by {
            assert(second@[j] == content@[pos + 1 + j]);
        }
        if second@.contains(DELIM) {
            let j = choose|j: int| 0 <= j < second@.len() && second@[j] == DELIM;
            assert(false);
        }
        assert(is_record_split(content@, first@, second@));
        lemma_record_parts_unique(content@, first@, second@);
    }
    Ok((first, second))
}

} // verus!
