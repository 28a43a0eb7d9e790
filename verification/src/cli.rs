//! The command line's parsed arguments, as plain values. Paths are held as
//! text; identifiers as their 128-bit values.

use vstd::prelude::*;

verus! {

/// The whole command line.
#[derive(Debug)]
pub struct Cli {
    /// The workspace root.
    pub workspace: String,
    pub verbose: bool,
    pub quiet: bool,
    pub no_progress: bool,
    pub command: Command,
}

#[derive(Debug)]
pub enum Command {
    Init(InitArgs),
    System(SystemCommand),
    Inventory(InventoryCommand),
    Scan(ScanCommand),
    Plan(PlanCommand),
    Vendor(VendorCommand),
    Report(ReportArgs),
    Config(ConfigCommand),
}

#[derive(Debug)]
pub struct InitArgs {
    /// Recreate an existing workspace.
    pub force: bool,
    /// Confirm a destructive action.
    pub yes: bool,
}

#[derive(Debug)]
pub enum SystemCommand {
    Add(SystemAddArgs),
    List,
    Edit(SystemEditArgs),
    Delete(SystemDeleteArgs),
}

#[derive(Debug)]
pub struct SystemAddArgs {
    pub name: String,
    pub description: Option<String>,
    pub classification: String,
    pub criticality: String,
    pub soci: bool,
    pub lifetime_years: Option<u16>,
}

#[derive(Debug)]
pub struct SystemEditArgs {
    pub id: u128,
    pub name: Option<String>,
    pub description: Option<String>,
    pub classification: Option<String>,
    pub criticality: Option<String>,
    pub soci: Option<bool>,
    pub lifetime_years: Option<u16>,
}

#[derive(Debug)]
pub struct SystemDeleteArgs {
    pub id: u128,
}

#[derive(Debug)]
pub enum InventoryCommand {
    List(InventoryListArgs),
    Show(InventoryShowArgs),
}

#[derive(Debug)]
pub struct InventoryListArgs {
    pub pqc_status: Option<String>,
    pub tier: Option<u8>,
    pub system: Option<u128>,
    pub algorithm: Option<String>,
}

#[derive(Debug)]
pub struct InventoryShowArgs {
    pub id: u128,
}

#[derive(Debug)]
pub enum ScanCommand {
    Codebase(ScanCodebaseArgs),
    Tls(ScanTlsArgs),
    Certs(ScanCertsArgs),
}

#[derive(Debug)]
pub struct ScanCodebaseArgs {
    pub path: Option<String>,
    pub git: Option<String>,
    /// Globs of files to scan.
    pub include_globs: Vec<String>,
    pub exclude: Vec<String>,
    pub name: Option<String>,
}

#[derive(Debug)]
pub struct ScanTlsArgs {
    pub targets: Vec<String>,
    pub targets_file: Option<String>,
    pub rate_limit: Option<String>,
    pub timeout_seconds: u64,
    pub probe_hsts: bool,
    pub exclude: Vec<String>,
    pub name: Option<String>,
}

#[derive(Debug)]
pub struct ScanCertsArgs {
    pub path: String,
    pub password_file: Option<String>,
    pub name: Option<String>,
}

#[derive(Debug)]
pub enum PlanCommand {
    Generate(PlanGenerateArgs),
    List,
    Show(PlanShowArgs),
    Regenerate(PlanRegenerateArgs),
}

#[derive(Debug)]
pub struct PlanGenerateArgs {
    pub milestone: String,
    pub name: Option<String>,
}

#[derive(Debug)]
pub struct PlanShowArgs {
    pub id: u128,
}

#[derive(Debug)]
pub struct PlanRegenerateArgs {
    pub id: u128,
}

#[derive(Debug)]
pub enum VendorCommand {
    List,
    Add(VendorAddArgs),
    Search(VendorSearchArgs),
}

#[derive(Debug)]
pub struct VendorAddArgs {
    pub vendor: String,
    pub product: String,
    pub pqc_status: String,
    pub target_date: Option<String>,
    pub source_url: Option<String>,
    pub source_note: Option<String>,
}

#[derive(Debug)]
pub struct VendorSearchArgs {
    pub term: String,
}

#[derive(Debug)]
pub struct ReportArgs {
    pub format: String,
    pub output: Option<String>,
}

#[derive(Debug)]
pub enum ConfigCommand {
    Get(ConfigGetArgs),
    SetValue(ConfigSetArgs),
}

#[derive(Debug)]
pub struct ConfigGetArgs {
    pub key: String,
}

#[derive(Debug)]
pub struct ConfigSetArgs {
    pub key: String,
    pub value: String,
}

} // verus!
