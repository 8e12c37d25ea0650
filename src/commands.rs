use vstd::prelude::*;

use crate::clapargs::{
    AccountCreateArgs, AccountUpdateArgs, AddressUpdateArgs, CompanyCreateArgs, CompanyUpdateArgs,
    ContractCreateArgs, ContractUpdateArgs, FinanceCreateQueryArgs, FinanceReportArgs,
    FinanceUpdateQueryArgs, InvoiceMakeArgs, InvoiceUpdateArgs, ProjectCreateArgs,
    ProjectTaskCreateArgs, ProjectTaskUpdateArgs, ProjectUpdateArgs, QuoteMakeArgs, QuoteUpdateArgs,
    ScheduleCreateArgs, ScheduleUpdateArgs,
};

verus! {

/// How command output is rendered.
#[derive(Clone, Copy, Debug, PartialEq, Eq, Structural)]
pub enum PrintMode {
    Normal,
    Value,
    Html,
    Json,
}

/// Decides what reaches the console in a print mode.
pub struct Logger {
    mode: PrintMode,
}

impl Logger {
    pub closed spec fn spec_mode(&self) -> PrintMode {
        self.mode
    }

    pub fn new(mode: PrintMode) -> (r: Self)
        ensures
            r.spec_mode() == mode,
    {
        Self { mode }
    }

    pub fn mode(&self) -> (r: PrintMode)
        ensures
            r == self.spec_mode(),
    {
        self.mode
    }

    /// The line to print for an informational message: shown in normal mode
    /// only, so that value, HTML and JSON output stay machine-readable.
    pub fn msg(&self, msg: String) -> (r: Option<String>)
        ensures
            r == if self.spec_mode() is Normal {
                Some(msg)
            } else {
                None
            },
    {
        match self.mode {
            PrintMode::Normal => Some(msg),
            _ => None,
        }
    }
}

/// A single character printed verbatim, such as a JSON list delimiter.
#[derive(Clone, Copy, Debug, PartialEq, Eq, Structural)]
pub struct Jchar(char);

impl Jchar {
    pub closed spec fn spec_value(&self) -> char {
        self.0
    }

    pub fn new(value: char) -> (r: Self)
        ensures
            r.spec_value() == value,
    {
        Self(value)
    }

    pub fn value(&self) -> (r: char)
        ensures
            r == self.spec_value(),
    {
        self.0
    }
}

#[derive(Debug)]
#[allow(inconsistent_fields)]
pub enum Commands {
    /// The `account` program
    Account {
        subcmd: Option<Box<AccountCommands>>,
    },
    /// The `project` program
    Project {
        subcmd: Option<ProjectCommands>,
    },
    /// The `schedule` program
    Schedule {
        subcmd: Option<ScheduleCommands>,
    },
    /// The `finance` program
    Finance {
        subcmd: Option<FinanceCommands>,
    },
}

#[derive(Debug)]
#[allow(inconsistent_fields)]
pub enum AccountCommands {
    /// Get an account
    Get {
        id: i64,
    },
    GetCompany {
        id: i64,
    },
    GetAddress {
        id: i64,
    },
    GetContract {
        id: i64,
    },
    Add {
        /// The account data
        account: Box<AccountCreateArgs>,
    },
    AddCompany {
        /// The company data
        company: Box<CompanyCreateArgs>,
    },
    AddContract {
        /// The contract data
        contract: Box<ContractCreateArgs>,
    },
    Update {
        id: i64,
        /// The account data
        account: Box<AccountUpdateArgs>,
    },
    UpdateCompany {
        id: i64,
        /// The company data
        company: Box<CompanyUpdateArgs>,
    },
    UpdateAddress {
        id: i64,
        /// The address data
        address: Box<AddressUpdateArgs>,
    },
    UpdateContract {
        id: i64,
        /// The contract data
        contract: Box<ContractUpdateArgs>,
    },
    /// Remove an account
    Remove {
        /// The account name
        id: i64,
    },
    RemoveCompany {
        /// The company name
        id: i64,
    },
    RemoveAddress {
        /// The address id
        id: i64,
    },
    RemoveContract {
        /// The contract id
        id: i64,
    },
    /// List all accounts (alias: `ls`)
    List {
        company_id: Option<i64>,
    },
    ListCompanies,
    ListAddresses,
    ListContracts {
        recipient_id: Option<i64>,
        sender_id: Option<i64>,
    },
}

#[derive(Debug)]
#[allow(inconsistent_fields)]
pub enum ProjectCommands {
    Get {
        id: i64,
        client: bool,
    },
    /// Add a project
    Add {
        /// The project data
        project: Box<ProjectCreateArgs>,
    },
    Update {
        id: i64,
        project: Box<ProjectUpdateArgs>,
    },
    GetTask {
        id: i64,
    },
    AddTask {
        /// The project task data
        project_task: Box<ProjectTaskCreateArgs>,
    },
    UpdateTask {
        id: i64,
        project_task: Box<ProjectTaskUpdateArgs>,
    },
    CompleteTask {
        /// The project task id
        id: i64,
    },
    /// Remove a project
    Remove {
        /// The project id
        id: i64,
    },
    RemoveTask {
        /// The project task id
        id: i64,
    },
    RemoveQuote {
        /// The quote id
        id: i64,
    },
    RemoveInvoice {
        /// The invoice id
        id: i64,
    },
    GetQuote {
        id: i64,
    },
    MakeQuote {
        args: Box<QuoteMakeArgs>,
    },
    UpdateQuote {
        id: i64,
        args: Box<QuoteUpdateArgs>,
    },
    GetInvoice {
        id: i64,
    },
    UpdateInvoice {
        id: i64,
        args: Box<InvoiceUpdateArgs>,
    },
    MakeInvoice {
        args: Box<InvoiceMakeArgs>,
    },
    /// List all projects (alias: `ls`)
    List,
    ListTasks {
        /// The project id
        id: i64,
    },
    ListQuotes {
        /// Project id
        project_id: Option<i64>,
        recipient_id: Option<i64>
    },
    ListInvoices {
        /// Project id
        project_id: Option<i64>,
        recipient_id: Option<i64>,
        contract_id: Option<i64>,
        quote_id: Option<i64>,
    },
}

#[derive(Debug)]
#[allow(inconsistent_fields)]
pub enum ScheduleCommands {
    Get {
        id: i64,
    },
    /// Create scheduled item
    /// Example: prepare an email with an invoice pdf every 3 months based on the maintenance contract
    /// command: $ casual-cli schedule add [contract_id] 10-11-2024 3m
    Add {
        schedule: Box<ScheduleCreateArgs>,
    },
    /// Update scheduled item
    Update {
        id: i64,
        schedule: Box<ScheduleUpdateArgs>,
    },
    /// Remove scheduled item
    Remove {
        id: i64,
    },
    /// List the schedule
    List,
}

#[derive(Debug)]
#[allow(inconsistent_fields)]
pub enum FinanceCommands {
    /// Create report
    Report {
        report: Box<FinanceReportArgs>,
    },
    AddQuery {
        query: Box<FinanceCreateQueryArgs>,
    },
    UpdateQuery {
        id: i64,
        query: Box<FinanceUpdateQueryArgs>,
    },
    /// Remove a report
    Remove { id: i64 },
    RemoveQuery { id: i64 },
}

/// The command line of the back-office tool.
#[derive(Debug)]
pub struct Args {
    pub mode: PrintMode,
    /// The command you want to use
    pub command: Option<Commands>,
}

} // verus!
