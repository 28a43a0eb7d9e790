//! The decisions of the subcommands: checking their arguments, editing the
//! lists they load, and choosing what to list, scan or write. Loading,
//! saving and printing are left to the caller.

use vstd::prelude::*;
use vstd::string::*;
use crate::cli::{
    InitArgs, InventoryListArgs, ReportArgs, ScanCertsArgs, ScanCodebaseArgs, ScanTlsArgs,
    SystemAddArgs, SystemEditArgs, VendorAddArgs,
};
use crate::clock::{utc_year, utc_year_of, uuid_text, uuid_text_of, valid_instant};
use crate::config::{get_value, get_value_spec, Config};
use crate::model::asset::{opt_view, CryptoAsset, PqcStatus};
use crate::model::system::{Classification, Criticality, System};
use crate::model::vendor::{apply_override, apply_override_exec, VendorEntry};
use crate::plan::{find_system, system_of};
use crate::scanners::cert_store::CertStoreOptions;
use crate::scanners::codebase::{lines_of, CodebaseOptions};
use crate::scanners::tls::TlsOptions;
use crate::scoring::{score_asset_for_year, tier_of};
use crate::text::{
    chars_of, contains, contains_chars, eq_str, lower, lower_chars, push_str, starts_with,
    string_of, to_lower, trim, trim_chars,
};

verus! {

broadcast use vstd::string::group_string_axioms;

/// Why a subcommand refused its arguments.
#[derive(Debug)]
pub enum RunError {
    /// `init --force` without `--yes`.
    ForceNeedsYes,
    UnknownClassification(String),
    UnknownCriticality(String),
    NoSystem(u128),
    NoAsset(u128),
    /// A codebase scan given neither a path nor a repository.
    MissingScanSource,
    NoTlsTargets,
    /// The status as given, in ASCII lower case.
    UnknownPqcStatus(String),
    /// The format as given, in ASCII lower case.
    UnknownReportFormat(String),
    UnknownConfigKey(String),
}

/// The message of a refusal, as the command line prints it.
pub open spec fn run_error_message(e: RunError) -> Seq<char> {
    match e {
        RunError::ForceNeedsYes => "--force requires --yes"@,
        RunError::UnknownClassification(v) => "unknown classification: "@ + v@,
        RunError::UnknownCriticality(v) => "unknown criticality: "@ + v@,
        RunError::NoSystem(id) => "no system with id "@ + uuid_text_of(id),
        RunError::NoAsset(id) => "no inventory entry with id "@ + uuid_text_of(id),
        RunError::MissingScanSource => "missing path or --git URL"@,
        RunError::NoTlsTargets => "no TLS targets specified; pass host:port or --targets-file"@,
        RunError::UnknownPqcStatus(v) => "unknown pqc_status: "@ + v@
            + " (expected vulnerable|hybrid|resistant|symmetric_ok|unknown)"@,
        RunError::UnknownReportFormat(v) => "unknown report format: "@ + v@,
        RunError::UnknownConfigKey(k) => "unknown config key: "@ + k@,
    }
}

impl RunError {
    /// The refusal's message.
    pub fn message(&self) -> (r: String)
        ensures
            r@ == run_error_message(*self),
    {
        let mut v: Vec<char> = Vec::new();
        match self {
            RunError::ForceNeedsYes => push_str(&mut v, "--force requires --yes"),
            RunError::UnknownClassification(s) => {
                push_str(&mut v, "unknown classification: ");
                push_str(&mut v, s.as_str());
            },
            RunError::UnknownCriticality(s) => {
                push_str(&mut v, "unknown criticality: ");
                push_str(&mut v, s.as_str());
            },
            RunError::NoSystem(id) => {
                push_str(&mut v, "no system with id ");
                push_str(&mut v, uuid_text(*id).as_str());
            },
            RunError::NoAsset(id) => {
                push_str(&mut v, "no inventory entry with id ");
                push_str(&mut v, uuid_text(*id).as_str());
            },
            RunError::MissingScanSource => push_str(&mut v, "missing path or --git URL"),
            RunError::NoTlsTargets => push_str(
                &mut v,
                "no TLS targets specified; pass host:port or --targets-file",
            ),
            RunError::UnknownPqcStatus(s) => {
                push_str(&mut v, "unknown pqc_status: ");
                push_str(&mut v, s.as_str());
                push_str(&mut v, " (expected vulnerable|hybrid|resistant|symmetric_ok|unknown)");
            },
            RunError::UnknownReportFormat(s) => {
                push_str(&mut v, "unknown report format: ");
                push_str(&mut v, s.as_str());
            },
            RunError::UnknownConfigKey(s) => {
                push_str(&mut v, "unknown config key: ");
                push_str(&mut v, s.as_str());
            },
        }
        string_of(v.as_slice())
    }
}

/// `init --force` needs `--yes`.
pub fn check_init_flags(args: &InitArgs) -> (r: Result<(), RunError>)
    ensures
        r is Err <==> args.force && !args.yes,
        r matches Err(e) ==> e is ForceNeedsYes,
{
    if args.force && !args.yes {
        Err(RunError::ForceNeedsYes)
    } else {
        Ok(())
    }
}

/// Adds the system `args` describe, with a fresh identifier, to the end of
/// `systems`; refuses an unknown classification or criticality and leaves
/// `systems` unchanged.
pub fn add_system(systems: &mut Vec<System>, args: &SystemAddArgs) -> (r: Result<u128, RunError>)
    ensures
        match (
            Classification::parse_spec(args.classification@),
            Criticality::parse_spec(args.criticality@),
        ) {
            (None, _) => r matches Err(RunError::UnknownClassification(v)) && v@
                == args.classification@ && final(systems)@ == old(systems)@,
            (Some(_), None) => r matches Err(RunError::UnknownCriticality(v)) && v@
                == args.criticality@ && final(systems)@ == old(systems)@,
            (Some(cl), Some(cr)) => {
                let s = final(systems)@.last();
                &&& r == Ok::<u128, RunError>(s.id)
                &&& final(systems)@.len() == old(systems)@.len() + 1
                &&& final(systems)@.drop_last() == old(systems)@
                &&& s.name@ == args.name@
                &&& opt_view(s.description) == opt_view(args.description)
                &&& s.classification == cl
                &&& s.criticality == cr
                &&& s.is_soci == args.soci
                &&& s.expected_data_lifetime_years == args.lifetime_years
                &&& valid_instant(s.created_at)
            },
        },
{
    let classification = match Classification::parse(args.classification.as_str()) {
        Some(c) => c,
        None => return Err(RunError::UnknownClassification(args.classification.clone())),
    };
    let criticality = match Criticality::parse(args.criticality.as_str()) {
        Some(c) => c,
        None => return Err(RunError::UnknownCriticality(args.criticality.clone())),
    };
    let description = match &args.description {
        Some(d) => Some(d.clone()),
        None => None,
    };
    let sys = System::new(
        args.name.clone(),
        description,
        classification,
        criticality,
        args.soci,
        args.lifetime_years,
    );
    let id = sys.id;
    systems.push(sys);
    assert(systems@.drop_last() =~= old(systems)@);
    Ok(id)
}

fn find_system_index(systems: &Vec<System>, id: u128) -> (r: Option<usize>)
    ensures
        match r {
            Some(i) => i < systems@.len() && systems@[i as int].id == id && forall|j: int|
                0 <= j < i ==> systems@[j].id != id,
            None => forall|j: int| 0 <= j < systems@.len() ==> systems@[j].id != id,
        },
{
    let mut i: usize = 0;
    while i < systems.len()
        invariant
            i <= systems.len(),
            forall|j: int| 0 <= j < i ==> systems@[j].id != id,
        decreases systems.len() - i,
    {
        if systems[i].id == id {
            return Some(i);
        }
        i = i + 1;
    }
    None
}

/// `s` is `old` with the edits of `args` (`cl` and `cr` the parsed
/// classification and criticality, where given): each field given is set.
pub open spec fn system_edited(
    s: System,
    old: System,
    args: SystemEditArgs,
    cl: Option<Classification>,
    cr: Option<Criticality>,
) -> bool {
    &&& s.id == old.id
    &&& s.created_at == old.created_at
    &&& s.name@ == match args.name {
        Some(n) => n@,
        None => old.name@,
    }
    &&& opt_view(s.description) == match args.description {
        Some(d) => Some(d@),
        None => opt_view(old.description),
    }
    &&& s.classification == match cl {
        Some(c) => c,
        None => old.classification,
    }
    &&& s.criticality == match cr {
        Some(c) => c,
        None => old.criticality,
    }
    &&& s.is_soci == match args.soci {
        Some(b) => b,
        None => old.is_soci,
    }
    &&& s.expected_data_lifetime_years == match args.lifetime_years {
        Some(y) => Some(y),
        None => old.expected_data_lifetime_years,
    }
}

fn clone_opt(s: &Option<String>) -> (r: Option<String>)
    ensures
        opt_view(r) == opt_view(*s),
{
    match s {
        Some(v) => Some(v.clone()),
        None => None,
    }
}

/// Edits the first system with the identifier `args` names: each field
/// given is set. Refuses an unknown identifier, classification or
/// criticality, and then leaves `systems` unchanged.
pub fn edit_system(systems: &mut Vec<System>, args: &SystemEditArgs) -> (r: Result<(), RunError>)
    ensures
        match args.classification {
            Some(c) => Classification::parse_spec(c@) is None ==> r is Err,
            None => true,
        },
        r matches Err(e) ==> final(systems)@ == old(systems)@,
        r matches Err(RunError::NoSystem(id)) ==> id == args.id && forall|j: int|
            0 <= j < old(systems)@.len() ==> old(systems)@[j].id != args.id,
        r matches Err(RunError::UnknownClassification(v)) ==> args.classification matches Some(c)
            && v@ == c@ && Classification::parse_spec(c@) is None,
        r matches Err(RunError::UnknownCriticality(v)) ==> args.criticality matches Some(c) && v@
            == c@ && Criticality::parse_spec(c@) is None,
        r matches Err(e) ==> e is NoSystem || e is UnknownClassification || e is UnknownCriticality,
        (exists|j: int| 0 <= j < old(systems)@.len() && old(systems)@[j].id == args.id) && (
        args.classification matches Some(c) ==> Classification::parse_spec(c@) is Some) && (
        args.criticality matches Some(c) ==> Criticality::parse_spec(c@) is Some) ==> r is Ok,
        r is Ok ==> exists|i: int|
            {
                &&& 0 <= i < old(systems)@.len()
                &&& old(systems)@[i].id == args.id
                &&& forall|j: int| 0 <= j < i ==> old(systems)@[j].id != args.id
                &&& final(systems)@.len() == old(systems)@.len()
                &&& forall|j: int|
                    0 <= j < old(systems)@.len() && j != i ==> final(systems)@[j] == old(
                        systems,
                    )@[j]
                &&& system_edited(
                    #[trigger] final(systems)@[i],
                    old(systems)@[i],
                    *args,
                    match args.classification {
                        Some(c) => Classification::parse_spec(c@),
                        None => None,
                    },
                    match args.criticality {
                        Some(c) => Criticality::parse_spec(c@),
                        None => None,
                    },
                )
            },
{
    let i = match find_system_index(systems, args.id) {
        Some(i) => i,
        None => return Err(RunError::NoSystem(args.id)),
    };
    let cl = match &args.classification {
        Some(c) => match Classification::parse(c.as_str()) {
            Some(v) => Some(v),
            None => return Err(RunError::UnknownClassification(c.clone())),
        },
        None => None,
    };
    let cr = match &args.criticality {
        Some(c) => match Criticality::parse(c.as_str()) {
            Some(v) => Some(v),
            None => return Err(RunError::UnknownCriticality(c.clone())),
        },
        None => None,
    };
    let old_s = &systems[i];
    let edited = System {
        id: old_s.id,
        name: match &args.name {
            Some(n) => n.clone(),
            None => old_s.name.clone(),
        },
        description: match &args.description {
            Some(d) => Some(d.clone()),
            None => clone_opt(&old_s.description),
        },
        classification: match cl {
            Some(c) => c,
            None => old_s.classification,
        },
        criticality: match cr {
            Some(c) => c,
            None => old_s.criticality,
        },
        is_soci: match args.soci {
            Some(b) => b,
            None => old_s.is_soci,
        },
        expected_data_lifetime_years: match args.lifetime_years {
            Some(y) => Some(y),
            None => old_s.expected_data_lifetime_years,
        },
        created_at: old_s.created_at,
    };
    systems.set(i, edited);
    assert(system_edited(
        systems@[i as int],
        old(systems)@[i as int],
        *args,
        cl,
        cr,
    ));
    Ok(())
}

/// Removes every system with identifier `id`; refuses, leaving `systems`
/// unchanged, where there is none.
pub fn delete_system(systems: &mut Vec<System>, id: u128) -> (r: Result<(), RunError>)
    ensures
        (exists|j: int| 0 <= j < old(systems)@.len() && old(systems)@[j].id == id) <==> r is Ok,
        r is Ok ==> final(systems)@ == old(systems)@.filter(|s: System| s.id != id),
        r matches Err(e) ==> e == RunError::NoSystem(id) && final(systems)@ == old(systems)@,
{
    let ghost orig = systems@;
    let ghost keep = |s: System| s.id != id;
    let mut found = false;
    let mut i: usize = 0;
    let ghost mut k: int = 0;
    assert(orig.take(0) =~= Seq::<System>::empty());
    assert(orig.skip(0) =~= orig);
    while i < systems.len()
        invariant
            0 <= k <= orig.len(),
            i == orig.take(k).filter(keep).len(),
            systems@ == orig.take(k).filter(keep) + orig.skip(k),
            found <==> exists|j: int| 0 <= j < k && orig[j].id == id,
            !found ==> systems@ == orig,
            keep == (|s: System| s.id != id),
        decreases systems.len() - i,
    {
        proof {
            reveal(Seq::filter);
            assert(orig.take(k + 1).drop_last() =~= orig.take(k));
            assert(orig.take(k + 1).last() == orig[k]);
            assert(systems@[i as int] == orig[k]);
        }
        let ghost before = systems@;
        if systems[i].id == id {
            let _removed = systems.remove(i);
            found = true;
            proof {
                assert(orig.take(k + 1).filter(keep) == orig.take(k).filter(keep));
                assert(systems@ =~= orig.take(k + 1).filter(keep) + orig.skip(k + 1));
                k = k + 1;
            }
        } else {
            proof {
                assert(orig.take(k + 1).filter(keep) == orig.take(k).filter(keep).push(orig[k]));
                assert(systems@ =~= orig.take(k + 1).filter(keep) + orig.skip(k + 1));
                if !found {
                    assert(orig.take(k).filter(keep) =~= orig.take(k)) by {
                        assert(systems@ == orig);
                        assert(before.len() == orig.len());
                    }
                }
                k = k + 1;
            }
            i = i + 1;
        }
    }
    proof {
        assert(k == orig.len()) by {
            assert(systems@.len() == orig.take(k).filter(keep).len() + orig.skip(k).len());
        }
        assert(orig.take(k) =~= orig);
        assert(orig.skip(k) =~= Seq::<System>::empty());
        assert(systems@ =~= orig.filter(keep));
    }
    if found {
        Ok(())
    } else {
        Err(RunError::NoSystem(id))
    }
}

/// How a PQC status is labelled in listings and matched by the status
/// filter: its name in ASCII lower case, without separators.
pub open spec fn pqc_label_spec(s: PqcStatus) -> Seq<char> {
    match s {
        PqcStatus::Vulnerable => "vulnerable"@,
        PqcStatus::Hybrid => "hybrid"@,
        PqcStatus::Resistant => "resistant"@,
        PqcStatus::SymmetricOk => "symmetricok"@,
        PqcStatus::Unknown => "unknown"@,
    }
}

/// The label of a PQC status in listings.
pub fn pqc_label(s: PqcStatus) -> (r: &'static str)
    ensures
        r@ == pqc_label_spec(s),
{
    match s {
        PqcStatus::Vulnerable => "vulnerable",
        PqcStatus::Hybrid => "hybrid",
        PqcStatus::Resistant => "resistant",
        PqcStatus::SymmetricOk => "symmetricok",
        PqcStatus::Unknown => "unknown",
    }
}

/// An asset passes the filters of an inventory listing: its status's
/// label equals the status asked for (ASCII case ignored), it is attached
/// to the system asked for, its algorithm name contains the text asked for
/// (ASCII case ignored), and its triage tier in `year` is the one asked for.
pub open spec fn listed(
    a: CryptoAsset,
    systems: Seq<System>,
    status: Option<Seq<char>>,
    tier: Option<u8>,
    system: Option<u128>,
    algorithm: Option<Seq<char>>,
    year: u16,
) -> bool {
    &&& status matches Some(v) ==> pqc_label_spec(a.pqc_status) == lower(v)
    &&& system matches Some(s) ==> a.system_id == Some(s)
    &&& algorithm matches Some(v) ==> contains(lower(a.algorithm_name@), lower(v))
    &&& tier matches Some(t) ==> tier_of(a, system_of(systems, a.system_id), year) == t
}

/// The indices of the first `n` assets that pass the filters, in order.
pub open spec fn listed_indices(
    inv: Seq<CryptoAsset>,
    systems: Seq<System>,
    status: Option<Seq<char>>,
    tier: Option<u8>,
    system: Option<u128>,
    algorithm: Option<Seq<char>>,
    year: u16,
    n: nat,
) -> Seq<usize>
    decreases n,
{
    if n == 0 {
        Seq::empty()
    } else {
        let prev = listed_indices(inv, systems, status, tier, system, algorithm, year, (n - 1) as nat);
        if listed(inv[n - 1], systems, status, tier, system, algorithm, year) {
            prev.push((n - 1) as usize)
        } else {
            prev
        }
    }
}

/// The inventory assets an inventory listing shows, by index, in inventory
/// order; tiers are those of the assets scored at the instant `today`.
pub fn list_inventory(
    inventory: &Vec<CryptoAsset>,
    systems: &Vec<System>,
    args: &InventoryListArgs,
    today: i128,
) -> (r: Vec<usize>)
    requires
        valid_instant(today),
    ensures
        r@ == listed_indices(
            inventory@,
            systems@,
            opt_view(args.pqc_status),
            args.tier,
            args.system,
            opt_view(args.algorithm),
            utc_year_of(today) as u16,
            inventory@.len(),
        ),
{
    let year = utc_year(today);
    let current_year: u16 = #[verifier::truncate] (year as u16);
    let status = match &args.pqc_status {
        Some(v) => Some(lower_chars(chars_of(v.as_str()).as_slice())),
        None => None,
    };
    let algorithm = match &args.algorithm {
        Some(v) => Some(lower_chars(chars_of(v.as_str()).as_slice())),
        None => None,
    };
    let ghost sv = opt_view(args.pqc_status);
    let ghost av = opt_view(args.algorithm);
    let mut out: Vec<usize> = Vec::new();
    let mut i: usize = 0;
    while i < inventory.len()
        invariant
            i <= inventory.len(),
            current_year == utc_year_of(today) as u16,
            status matches Some(v) ==> sv matches Some(w) && v@ == lower(w),
            status is None ==> sv is None,
            algorithm matches Some(v) ==> av matches Some(w) && v@ == lower(w),
            algorithm is None ==> av is None,
            out@ == listed_indices(
                inventory@,
                systems@,
                sv,
                args.tier,
                args.system,
                av,
                current_year,
                i as nat,
            ),
        decreases inventory.len() - i,
    {
        let a = &inventory[i];
        let mut ok = true;
        if let Some(v) = &status {
            let label = pqc_label(a.pqc_status);
            if !eq_str(v.as_slice(), label) {
                ok = false;
            }
        }
        if let Some(s) = args.system {
            if a.system_id != Some(s) {
                ok = false;
            }
        }
        if let Some(v) = &algorithm {
            let name = lower_chars(chars_of(a.algorithm_name.as_str()).as_slice());
            if !contains_chars(name.as_slice(), v.as_slice()) {
                ok = false;
            }
        }
        if let Some(t) = args.tier {
            let sys = find_system(systems, a.system_id);
            let score = score_asset_for_year(a, sys, current_year);
            if score.triage_tier != t {
                ok = false;
            }
        }
        assert(ok == listed(inventory@[i as int], systems@, sv, args.tier, args.system, av, current_year));
        if ok {
            out.push(i);
        }
        i = i + 1;
    }
    out
}

/// The index of the first inventory asset with identifier `id`.
pub fn find_asset(inventory: &Vec<CryptoAsset>, id: u128) -> (r: Result<usize, RunError>)
    ensures
        match r {
            Ok(i) => i < inventory@.len() && inventory@[i as int].id == id && forall|j: int|
                0 <= j < i ==> inventory@[j].id != id,
            Err(e) => e == RunError::NoAsset(id) && forall|j: int|
                0 <= j < inventory@.len() ==> inventory@[j].id != id,
        },
{
    let mut i: usize = 0;
    while i < inventory.len()
        invariant
            i <= inventory.len(),
            forall|j: int| 0 <= j < i ==> inventory@[j].id != id,
        decreases inventory.len() - i,
    {
        if inventory[i].id == id {
            return Ok(i);
        }
        i = i + 1;
    }
    Err(RunError::NoAsset(id))
}

/// Where a codebase scan reads its files from.
#[derive(Debug)]
pub enum CodebaseSource {
    /// A directory on disk.
    Path(String),
    /// A git repository, which this version does not clone.
    GitNotImplemented,
}

/// The source of a codebase scan: the path given, else the repository
/// given; refuses a scan given neither.
pub fn codebase_source(args: &ScanCodebaseArgs) -> (r: Result<CodebaseSource, RunError>)
    ensures
        match args.path {
            Some(p) => r matches Ok(CodebaseSource::Path(q)) && q@ == p@,
            None => match args.git {
                Some(_) => r matches Ok(CodebaseSource::GitNotImplemented),
                None => r matches Err(RunError::MissingScanSource),
            },
        },
{
    match &args.path {
        Some(p) => Ok(CodebaseSource::Path(p.clone())),
        None => match &args.git {
            Some(_) => Ok(CodebaseSource::GitNotImplemented),
            None => Err(RunError::MissingScanSource),
        },
    }
}

/// The message printed where a repository was given in place of a path.
pub fn git_not_implemented_message() -> (r: &'static str)
    ensures
        r@ == "git cloning is not yet implemented; pass a local path instead"@,
{
    "git cloning is not yet implemented; pass a local path instead"
}

fn clone_strings(v: &Vec<String>) -> (r: Vec<String>)
    ensures
        r@.map_values(|s: String| s@) == v@.map_values(|s: String| s@),
{
    let mut out: Vec<String> = Vec::new();
    let mut i: usize = 0;
    while i < v.len()
        invariant
            i <= v.len(),
            out@.map_values(|s: String| s@) == v@.take(i as int).map_values(|s: String| s@),
        decreases v.len() - i,
    {
        let c = v[i].clone();
        let ghost before = out@;
        out.push(c);
        assert(v@.take(i + 1) =~= v@.take(i as int).push(v@[i as int]));
        assert(out@.map_values(|s: String| s@) =~= before.map_values(|s: String| s@).push(c@));
        assert(v@.take(i + 1).map_values(|s: String| s@) =~= v@.take(i as int).map_values(
            |s: String| s@,
        ).push(v@[i as int]@));
        i = i + 1;
    }
    assert(v@.take(v.len() as int) =~= v@);
    out
}

/// The options of a codebase scan, as its arguments give them.
pub fn codebase_options(args: &ScanCodebaseArgs) -> (r: CodebaseOptions)
    ensures
        r.include_globs@.map_values(|s: String| s@) == args.include_globs@.map_values(
            |s: String| s@,
        ),
        r.exclude@.map_values(|s: String| s@) == args.exclude@.map_values(|s: String| s@),
        opt_view(r.name) == opt_view(args.name),
{
    CodebaseOptions {
        include_globs: clone_strings(&args.include_globs),
        exclude: clone_strings(&args.exclude),
        name: clone_opt(&args.name),
    }
}

/// The options of a TLS scan, as its arguments and the workspace's
/// air-gapped setting give them.
pub fn tls_options(args: &ScanTlsArgs, air_gapped: bool) -> (r: TlsOptions)
    ensures
        opt_view(r.rate_limit) == opt_view(args.rate_limit),
        r.timeout_seconds == args.timeout_seconds,
        r.probe_hsts == args.probe_hsts,
        r.exclude@.map_values(|s: String| s@) == args.exclude@.map_values(|s: String| s@),
        opt_view(r.name) == opt_view(args.name),
        r.air_gapped == air_gapped,
{
    TlsOptions {
        rate_limit: clone_opt(&args.rate_limit),
        timeout_seconds: args.timeout_seconds,
        probe_hsts: args.probe_hsts,
        exclude: clone_strings(&args.exclude),
        name: clone_opt(&args.name),
        air_gapped,
    }
}

/// The options of a certificate store scan, as its arguments give them.
pub fn cert_store_options(args: &ScanCertsArgs) -> (r: CertStoreOptions)
    ensures
        opt_view(r.password_file) == opt_view(args.password_file),
        opt_view(r.name) == opt_view(args.name),
{
    CertStoreOptions { password_file: clone_opt(&args.password_file), name: clone_opt(&args.name) }
}

/// A line of a targets file names a target: trimmed, it is neither empty
/// nor a `#` comment.
pub open spec fn is_target_line(l: Seq<char>) -> bool {
    trim(l).len() > 0 && !starts_with(trim(l), "#"@)
}

/// The targets a targets file names, trimmed, in order.
pub open spec fn file_targets(lines: Seq<Seq<char>>) -> Seq<Seq<char>>
    decreases lines.len(),
{
    if lines.len() == 0 {
        Seq::empty()
    } else {
        let prev = file_targets(lines.drop_last());
        if is_target_line(lines.last()) {
            prev.push(trim(lines.last()))
        } else {
            prev
        }
    }
}

/// The targets a TLS scan probes: those given on the command line, then
/// those of the targets file's text `file`, where one was read; refuses a
/// scan without targets.
pub fn tls_targets(targets: &Vec<String>, file: Option<&str>) -> (r: Result<Vec<String>, RunError>)
    ensures
        ({
            let all = targets@.map_values(|s: String| s@) + match file {
                Some(t) => file_targets(lines_of(t@)),
                None => Seq::empty(),
            };
            &&& all.len() == 0 <==> r is Err
            &&& r matches Ok(v) ==> v@.map_values(|s: String| s@) == all
            &&& r matches Err(e) ==> e is NoTlsTargets
        }),
{
    let mut out = clone_strings(targets);
    let ghost given = targets@.map_values(|s: String| s@);
    if let Some(t) = file {
        let chars = chars_of(t);
        let lines = crate::scanners::codebase::split_lines(chars.as_slice());
        let ghost ls = lines@.map_values(|l: Vec<char>| l@);
        let mut i: usize = 0;
        assert(ls.take(0) =~= Seq::<Seq<char>>::empty());
        assert(given + Seq::<Seq<char>>::empty() =~= given);
        while i < lines.len()
            invariant
                i <= lines.len(),
                ls == lines@.map_values(|l: Vec<char>| l@),
                ls == lines_of(t@),
                out@.map_values(|s: String| s@) == given + file_targets(ls.take(i as int)),
            decreases lines.len() - i,
        {
            let tl = trim_chars(lines[i].as_slice());
            proof {
                assert(ls.take(i + 1).drop_last() =~= ls.take(i as int));
                assert(ls.take(i + 1).last() == lines@[i as int]@);
            }
            let ghost before = out@.map_values(|s: String| s@);
            if tl.len() > 0 && !crate::text::starts_with_str(tl.as_slice(), "#") {
                out.push(string_of(tl.as_slice()));
                assert(out@.map_values(|s: String| s@) =~= before.push(tl@));
            }
            i = i + 1;
        }
        assert(ls.take(lines.len() as int) =~= ls);
    } else {
        assert(given + Seq::<Seq<char>>::empty() =~= given);
    }
    if out.len() == 0 {
        Err(RunError::NoTlsTargets)
    } else {
        Ok(out)
    }
}

/// The PQC status a vendor entry is given with, by name in ASCII lower case.
pub open spec fn vendor_status_spec(s: Seq<char>) -> Option<PqcStatus> {
    let l = lower(s);
    if l == "vulnerable"@ {
        Some(PqcStatus::Vulnerable)
    } else if l == "hybrid"@ {
        Some(PqcStatus::Hybrid)
    } else if l == "resistant"@ {
        Some(PqcStatus::Resistant)
    } else if l == "symmetric_ok"@ {
        Some(PqcStatus::SymmetricOk)
    } else if l == "unknown"@ {
        Some(PqcStatus::Unknown)
    } else {
        None
    }
}

/// Parses the PQC status of a vendor entry; refuses any other name, quoted
/// in ASCII lower case.
pub fn parse_vendor_status(s: &str) -> (r: Result<PqcStatus, RunError>)
    ensures
        match vendor_status_spec(s@) {
            Some(p) => r matches Ok(q) && q == p,
            None => r matches Err(RunError::UnknownPqcStatus(v)) && v@ == lower(s@),
        },
{
    let l = lower_chars(chars_of(s).as_slice());
    let ls = l.as_slice();
    if eq_str(ls, "vulnerable") {
        Ok(PqcStatus::Vulnerable)
    } else if eq_str(ls, "hybrid") {
        Ok(PqcStatus::Hybrid)
    } else if eq_str(ls, "resistant") {
        Ok(PqcStatus::Resistant)
    } else if eq_str(ls, "symmetric_ok") {
        Ok(PqcStatus::SymmetricOk)
    } else if eq_str(ls, "unknown") {
        Ok(PqcStatus::Unknown)
    } else {
        Err(RunError::UnknownPqcStatus(string_of(ls)))
    }
}

/// The vendor override `args` describe, verified at the instant `now`.
pub fn vendor_entry(args: &VendorAddArgs, now: i128) -> (r: Result<VendorEntry, RunError>)
    ensures
        match vendor_status_spec(args.pqc_status@) {
            Some(p) => r matches Ok(e) && e.vendor@ == args.vendor@ && e.product@ == args.product@
                && e.pqc_status == p && opt_view(e.target_date) == opt_view(args.target_date)
                && opt_view(e.source_url) == opt_view(args.source_url) && opt_view(e.source_note)
                == opt_view(args.source_note) && e.last_verified_at == Some(now),
            None => r matches Err(RunError::UnknownPqcStatus(v)) && v@ == lower(args.pqc_status@),
        },
{
    let status = match parse_vendor_status(args.pqc_status.as_str()) {
        Ok(s) => s,
        Err(e) => return Err(e),
    };
    Ok(
        VendorEntry {
            vendor: args.vendor.clone(),
            product: args.product.clone(),
            pqc_status: status,
            target_date: clone_opt(&args.target_date),
            source_url: clone_opt(&args.source_url),
            source_note: clone_opt(&args.source_note),
            last_verified_at: Some(now),
        },
    )
}

/// Records `entry` among the vendor overrides: it replaces the first
/// override with the same vendor and product (ASCII case ignored), or is
/// added at the end.
pub fn upsert_override(overrides: &mut Vec<VendorEntry>, entry: &VendorEntry)
    ensures
        final(overrides)@ == apply_override(old(overrides)@, *entry),
{
    apply_override_exec(overrides, entry);
}

/// The file name a report of a format is written to by default, by the
/// format in ASCII lower case.
pub open spec fn report_default_spec(format: Seq<char>) -> Option<Seq<char>> {
    let f = lower(format);
    if f == "json"@ {
        Some("report.json"@)
    } else if f == "cbom"@ {
        Some("bom.cdx.json"@)
    } else if f == "md"@ {
        Some("readiness.md"@)
    } else {
        None
    }
}

/// The report format asked for, in ASCII lower case, and the file name it
/// is written to by default; refuses a format that is not one of the three.
pub fn report_format(args: &ReportArgs) -> (r: Result<(String, &'static str), RunError>)
    ensures
        match report_default_spec(args.format@) {
            Some(n) => r matches Ok((f, d)) && f@ == lower(args.format@) && d@ == n,
            None => r matches Err(RunError::UnknownReportFormat(v)) && v@ == lower(args.format@),
        },
{
    let f = to_lower(args.format.as_str());
    let fc = chars_of(f.as_str());
    let s = fc.as_slice();
    if eq_str(s, "json") {
        Ok((f, "report.json"))
    } else if eq_str(s, "cbom") {
        Ok((f, "bom.cdx.json"))
    } else if eq_str(s, "md") {
        Ok((f, "readiness.md"))
    } else {
        Err(RunError::UnknownReportFormat(f))
    }
}

/// The value of a configuration key; refuses an unknown key.
pub fn config_get(cfg: &Config, key: &str) -> (r: Result<String, RunError>)
    ensures
        match get_value_spec(cfg@, key@) {
            Some(v) => r matches Ok(s) && s@ == v,
            None => r matches Err(RunError::UnknownConfigKey(k)) && k@ == key@,
        },
{
    match get_value(cfg, key) {
        Some(v) => Ok(v),
        None => Err(RunError::UnknownConfigKey(String::from_str(key))),
    }
}

} // verus!
