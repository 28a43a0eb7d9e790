//! What the reports say: every inventory asset with its risk score, the
//! vendor registry's coverage by PQC status, and the CycloneDX components
//! of a cryptographic bill of materials. Writing the files is left to the
//! caller.

use vstd::prelude::*;
use vstd::string::*;
use crate::clock::{utc_year, utc_year_of, uuid_text, uuid_text_of, valid_instant};
use crate::model::asset::{AssetType, CryptoAsset, PqcStatus, Primitive};
use crate::model::score::RiskScore;
use crate::model::system::System;
use crate::model::vendor::VendorEntry;
use crate::plan::{find_system, system_of};
use crate::runner::{pqc_label, pqc_label_spec};
use crate::scoring::{score_asset_for_year, score_holds};
use crate::text::{chars_of, contains, contains_str, eq_str, lower, lower_chars, push_str, string_of};

verus! {

broadcast use vstd::string::group_string_axioms;

/// The risk score of every inventory asset, in inventory order, each
/// scored with the system it is attached to, at the instant `today`.
pub fn score_inventory(inventory: &Vec<CryptoAsset>, systems: &Vec<System>, today: i128) -> (r:
    Vec<RiskScore>)
    requires
        valid_instant(today),
    ensures
        r@.len() == inventory@.len(),
        forall|i: int|
            0 <= i < r@.len() ==> score_holds(
                #[trigger] r@[i],
                inventory@[i],
                system_of(systems@, inventory@[i].system_id),
                utc_year_of(today) as u16,
            ),
{
    let year = utc_year(today);
    let current_year: u16 = #[verifier::truncate] (year as u16);
    let mut out: Vec<RiskScore> = Vec::new();
    let mut i: usize = 0;
    while i < inventory.len()
        invariant
            i <= inventory.len(),
            current_year == utc_year_of(today) as u16,
            out@.len() == i,
            forall|k: int|
                0 <= k < i ==> score_holds(
                    #[trigger] out@[k],
                    inventory@[k],
                    system_of(systems@, inventory@[k].system_id),
                    current_year,
                ),
        decreases inventory.len() - i,
    {
        let a = &inventory[i];
        let sys = find_system(systems, a.system_id);
        out.push(score_asset_for_year(a, sys, current_year));
        i = i + 1;
    }
    out
}

/// The number of entries of each PQC status, by status label, in the order
/// the statuses first occur.
pub open spec fn coverage_spec(entries: Seq<VendorEntry>) -> Seq<(Seq<char>, nat)>
    decreases entries.len(),
{
    if entries.len() == 0 {
        Seq::empty()
    } else {
        count_in(coverage_spec(entries.drop_last()), pqc_label_spec(entries.last().pqc_status))
    }
}

/// `counts` with one more of `label`: its count raised, or the label added
/// with a count of one.
pub open spec fn count_in(counts: Seq<(Seq<char>, nat)>, label: Seq<char>) -> Seq<(Seq<char>, nat)> {
    if exists|i: int| 0 <= i < counts.len() && counts[i].0 == label {
        let i = choose|i: int| 0 <= i < counts.len() && counts[i].0 == label;
        counts.update(i, (label, counts[i].1 + 1))
    } else {
        counts.push((label, 1))
    }
}

/// The labels of `counts` are distinct.
pub open spec fn labels_distinct(counts: Seq<(Seq<char>, nat)>) -> bool {
    forall|i: int, j: int| 0 <= i < j < counts.len() ==> counts[i].0 != counts[j].0
}

/// The vendor registry's coverage: its number of entries, and the number
/// of entries of each PQC status, by status label, in the order the
/// statuses first occur.
pub fn vendor_coverage(entries: &Vec<VendorEntry>) -> (r: (usize, Vec<(String, u64)>))
    ensures
        r.0 == entries@.len(),
        r.1@.map_values(|c: (String, u64)| (c.0@, c.1 as nat)) == coverage_spec(entries@),
{
    let mut counts: Vec<(String, u64)> = Vec::new();
    let mut i: usize = 0;
    assert(entries@.take(0) =~= Seq::<VendorEntry>::empty());
    while i < entries.len()
        invariant
            i <= entries.len(),
            counts@.map_values(|c: (String, u64)| (c.0@, c.1 as nat)) == coverage_spec(
                entries@.take(i as int),
            ),
            labels_distinct(counts@.map_values(|c: (String, u64)| (c.0@, c.1 as nat))),
            forall|k: int| 0 <= k < counts@.len() ==> (#[trigger] counts@[k]).1 <= i,
        decreases entries.len() - i,
    {
        let label = pqc_label(entries[i].pqc_status);
        let ghost cv = counts@.map_values(|c: (String, u64)| (c.0@, c.1 as nat));
        proof {
            assert(entries@.take(i + 1).drop_last() =~= entries@.take(i as int));
            assert(entries@.take(i + 1).last() == entries@[i as int]);
        }
        let mut j: usize = 0;
        while j < counts.len() && !eq_str(chars_of(counts[j].0.as_str()).as_slice(), label)
            invariant
                j <= counts.len(),
                forall|k: int| 0 <= k < j ==> counts@[k].0@ != label@,
            decreases counts.len() - j,
        {
            j = j + 1;
        }
        if j < counts.len() {
            let n = counts[j].1;
            let name = counts[j].0.clone();
            proof {
                assert(cv[j as int].0 == label@);
                let c = choose|c: int| 0 <= c < cv.len() && cv[c].0 == label@;
                if c != j {
                    if c < j {
                        assert(cv[c].0 != cv[j as int].0);
                    } else {
                        assert(cv[j as int].0 != cv[c].0);
                    }
                }
            }
            counts.set(j, (name, n + 1));
            assert(counts@.map_values(|c: (String, u64)| (c.0@, c.1 as nat)) =~= cv.update(
                j as int,
                (label@, cv[j as int].1 + 1),
            ));
        } else {
            proof {
                assert forall|k: int| 0 <= k < cv.len() implies cv[k].0 != label@ by {
                    assert(cv[k].0 == counts@[k].0@);
                }
            }
            counts.push((String::from_str(label), 1));
            assert(counts@.map_values(|c: (String, u64)| (c.0@, c.1 as nat)) =~= cv.push(
                (label@, 1),
            ));
        }
        i = i + 1;
    }
    assert(entries@.take(entries.len() as int) =~= entries@);
    (entries.len(), counts)
}

/// The CycloneDX asset type of a Boab asset type: algorithms and library
/// dependencies are algorithms, certificates certificates, keys related
/// crypto material and endpoints protocols.
pub open spec fn cbom_asset_type_spec(t: AssetType) -> Seq<char> {
    match t {
        AssetType::Algorithm => "algorithm"@,
        AssetType::LibraryDependency => "algorithm"@,
        AssetType::Certificate => "certificate"@,
        AssetType::Key => "related-crypto-material"@,
        AssetType::ProtocolEndpoint => "protocol"@,
    }
}

/// The CycloneDX asset type of a Boab asset type.
pub fn cbom_asset_type(t: AssetType) -> (r: &'static str)
    ensures
        r@ == cbom_asset_type_spec(t),
{
    match t {
        AssetType::Algorithm => "algorithm",
        AssetType::LibraryDependency => "algorithm",
        AssetType::Certificate => "certificate",
        AssetType::Key => "related-crypto-material",
        AssetType::ProtocolEndpoint => "protocol",
    }
}

/// The CycloneDX primitive of a Boab primitive.
pub open spec fn cbom_primitive_spec(p: Primitive) -> Seq<char> {
    match p {
        Primitive::BlockCipher => "block-cipher"@,
        Primitive::StreamCipher => "stream-cipher"@,
        Primitive::Hash => "hash"@,
        Primitive::Signature => "signature"@,
        Primitive::KeyAgreement => "key-agree"@,
        Primitive::Kem => "kem"@,
        Primitive::Pke => "pke"@,
        Primitive::Mac => "mac"@,
        Primitive::Drbg => "drbg"@,
    }
}

/// The CycloneDX primitive of a Boab primitive.
pub fn cbom_primitive(p: Primitive) -> (r: &'static str)
    ensures
        r@ == cbom_primitive_spec(p),
{
    match p {
        Primitive::BlockCipher => "block-cipher",
        Primitive::StreamCipher => "stream-cipher",
        Primitive::Hash => "hash",
        Primitive::Signature => "signature",
        Primitive::KeyAgreement => "key-agree",
        Primitive::Kem => "kem",
        Primitive::Pke => "pke",
        Primitive::Mac => "mac",
        Primitive::Drbg => "drbg",
    }
}

/// An algorithm name without case or separators: ASCII lower case, with
/// `-`, `_` and spaces dropped.
pub open spec fn compact(name: Seq<char>) -> Seq<char> {
    lower(name).filter(|c: char| c != '-' && c != '_' && c != ' ')
}

/// The NIST quantum security level of an asset, by its algorithm name
/// (compacted): 5 for ML-KEM-1024, ML-DSA-87 and Dilithium5; 3 for
/// ML-KEM-768, ML-DSA-65 and Dilithium3; 2 for ML-DSA-44 and Dilithium2; 1
/// for ML-KEM-512, AES-128 and any algorithm whose status is symmetric-safe;
/// 0 for any other, vulnerable or unknown.
pub open spec fn nist_level_spec(name: Seq<char>, status: PqcStatus) -> u8 {
    let n = compact(name);
    if contains(n, "mlkem1024"@) || contains(n, "mldsa87"@) || contains(n, "dilithium5"@) {
        5
    } else if contains(n, "mlkem768"@) || contains(n, "mldsa65"@) || contains(n, "dilithium3"@) {
        3
    } else if contains(n, "mldsa44"@) || contains(n, "dilithium2"@) {
        2
    } else if contains(n, "mlkem512"@) || contains(n, "aes128"@) || status == PqcStatus::SymmetricOk {
        1
    } else {
        0
    }
}

fn compact_exec(name: &str) -> (r: Vec<char>)
    ensures
        r@ == compact(name@),
{
    let l = lower_chars(chars_of(name).as_slice());
    let ghost keep = |c: char| c != '-' && c != '_' && c != ' ';
    let mut out: Vec<char> = Vec::new();
    let mut i: usize = 0;
    assert(l@.take(0) =~= Seq::<char>::empty());
    while i < l.len()
        invariant
            i <= l.len(),
            l@ == lower(name@),
            out@ == l@.take(i as int).filter(keep),
            keep == (|c: char| c != '-' && c != '_' && c != ' '),
        decreases l.len() - i,
    {
        let c = l[i];
        proof {
            reveal(Seq::filter);
            assert(l@.take(i + 1).drop_last() =~= l@.take(i as int));
            assert(l@.take(i + 1).last() == c);
        }
        if c != '-' && c != '_' && c != ' ' {
            out.push(c);
        }
        i = i + 1;
    }
    assert(l@.take(l.len() as int) =~= l@);
    out
}

/// The NIST quantum security level of an asset.
pub fn nist_quantum_security_level(asset: &CryptoAsset) -> (r: u8)
    ensures
        r == nist_level_spec(asset.algorithm_name@, asset.pqc_status),
{
    let c = compact_exec(asset.algorithm_name.as_str());
    let n = c.as_slice();
    if contains_str(n, "mlkem1024") || contains_str(n, "mldsa87") || contains_str(n, "dilithium5") {
        5
    } else if contains_str(n, "mlkem768") || contains_str(n, "mldsa65") || contains_str(
        n,
        "dilithium3",
    ) {
        3
    } else if contains_str(n, "mldsa44") || contains_str(n, "dilithium2") {
        2
    } else if contains_str(n, "mlkem512") || contains_str(n, "aes128") || asset.pqc_status
        == PqcStatus::SymmetricOk {
        1
    } else {
        0
    }
}

/// One component of a CycloneDX cryptographic bill of materials.
pub struct CbomComponent {
    /// `boab:` and the asset's identifier.
    pub bom_ref: String,
    pub name: String,
    /// The CycloneDX asset type.
    pub asset_type: &'static str,
    /// The CycloneDX primitive, for an algorithm with a known primitive.
    pub primitive: Option<&'static str>,
    /// The NIST quantum security level, for an algorithm.
    pub nist_quantum_security_level: Option<u8>,
}

/// The component `c` describes asset `a`.
pub open spec fn component_of(c: CbomComponent, a: CryptoAsset) -> bool {
    let is_algorithm = a.asset_type == AssetType::Algorithm || a.asset_type
        == AssetType::LibraryDependency;
    &&& c.bom_ref@ == "boab:"@ + uuid_text_of(a.id)
    &&& c.name@ == a.name@
    &&& c.asset_type@ == cbom_asset_type_spec(a.asset_type)
    &&& opt_static(c.primitive) == (if is_algorithm && a.primitive is Some {
        Some(cbom_primitive_spec(a.primitive->Some_0))
    } else {
        None
    })
    &&& c.nist_quantum_security_level == (if is_algorithm {
        Some(nist_level_spec(a.algorithm_name@, a.pqc_status))
    } else {
        None
    })
}

pub open spec fn opt_static(o: Option<&'static str>) -> Option<Seq<char>> {
    match o {
        Some(s) => Some(s@),
        None => None,
    }
}

/// The CycloneDX component of one inventory asset.
pub fn cbom_component(asset: &CryptoAsset) -> (r: CbomComponent)
    ensures
        component_of(r, *asset),
{
    let mut v: Vec<char> = Vec::new();
    push_str(&mut v, "boab:");
    push_str(&mut v, uuid_text(asset.id).as_str());
    let is_algorithm = asset.asset_type == AssetType::Algorithm || asset.asset_type
        == AssetType::LibraryDependency;
    let primitive = if is_algorithm {
        match asset.primitive {
            Some(p) => Some(cbom_primitive(p)),
            None => None,
        }
    } else {
        None
    };
    let level = if is_algorithm {
        Some(nist_quantum_security_level(asset))
    } else {
        None
    };
    CbomComponent {
        bom_ref: string_of(v.as_slice()),
        name: asset.name.clone(),
        asset_type: cbom_asset_type(asset.asset_type),
        primitive,
        nist_quantum_security_level: level,
    }
}

/// The CycloneDX components of an inventory, one per asset, in order.
pub fn cbom_components(inventory: &Vec<CryptoAsset>) -> (r: Vec<CbomComponent>)
    ensures
        r@.len() == inventory@.len(),
        forall|i: int| 0 <= i < r@.len() ==> component_of(#[trigger] r@[i], inventory@[i]),
{
    let mut out: Vec<CbomComponent> = Vec::new();
    let mut i: usize = 0;
    while i < inventory.len()
        invariant
            i <= inventory.len(),
            out@.len() == i,
            forall|k: int| 0 <= k < i ==> component_of(#[trigger] out@[k], inventory@[k]),
        decreases inventory.len() - i,
    {
        out.push(cbom_component(&inventory[i]));
        i = i + 1;
    }
    out
}

} // verus!
