use vstd::prelude::*;

verus! {

#[derive(Debug)]
pub struct AddressCreateArgs {
    pub account_id: Option<i64>,
    pub company_id: Option<i64>,
    pub country: Option<String>,
    pub city: Option<String>,
    pub street: Option<String>,
    pub number: Option<String>,
    pub unit: Option<String>,
    pub postalcode: Option<String>,
}

#[derive(Debug)]
pub struct AddressUpdateArgs {
    pub id: i64,
    pub country: Option<String>,
    pub city: Option<String>,
    pub street: Option<String>,
    pub number: Option<String>,
    pub unit: Option<String>,
    pub postalcode: Option<String>,
}

#[derive(Debug)]
pub struct AccountCreateArgs {
    pub name: String,
    pub phone: Option<String>,
    pub email: Option<String>,
    pub company_id: Option<i64>,
    pub address_id: Option<i64>,
    pub company_name: Option<String>,
    pub country: Option<String>,
    pub city: Option<String>,
    pub street: Option<String>,
    pub number: Option<String>,
    pub unit: Option<String>,
    pub postalcode: Option<String>,
    pub privacy_permissions: Option<String>,
}

#[derive(Debug)]
pub struct AccountUpdateArgs {
    pub name: Option<String>,
    pub phone: Option<String>,
    pub email: Option<String>,
    pub company_id: Option<i64>,
    pub address_id: Option<i64>,
    pub privacy_permissions: Option<String>,
}

#[derive(Debug)]
pub struct CompanyCreateArgs {
    pub name: String,
    pub logo: Option<String>,
    pub commerce_number: Option<String>,
    pub vat_number: Option<String>,
    pub iban: Option<String>,
    pub phone: Option<String>,
    pub email: Option<String>,
    pub account_id: Option<i64>,
    pub address_id: Option<i64>,
    pub country: Option<String>,
    pub city: Option<String>,
    pub street: Option<String>,
    pub number: Option<String>,
    pub unit: Option<String>,
    pub postalcode: Option<String>,
}

#[derive(Debug)]
pub struct CompanyUpdateArgs {
    pub id: i64,
    pub name: Option<String>,
    pub logo: Option<String>,
    pub commerce_number: Option<String>,
    pub vat_number: Option<String>,
    pub iban: Option<String>,
    pub phone: Option<String>,
    pub email: Option<String>,
    pub account_id: Option<i64>,
    pub address_id: Option<i64>,
}

#[derive(Debug)]
pub struct ProjectCreateArgs {
    pub title: String,
    pub description: Option<String>,
    pub client_id: i64,
}

#[derive(Debug)]
pub struct ProjectUpdateArgs {
    pub title: Option<String>,
    pub description: Option<String>,
    pub client_id: Option<i64>,
}

#[derive(Debug)]
pub struct ProjectTaskCreateArgs {
    pub project_id: i64,
    pub title: String,
    pub description: Option<String>,
    pub minutes_estimated: Option<i64>,
    pub minutes_spent: Option<i64>,
    pub minutes_remaining: Option<i64>,
    pub minutes_billed: Option<i64>,
    pub minute_rate: Option<i64>,
}

#[derive(Debug)]
pub struct ProjectTaskUpdateArgs {
    pub project_id: Option<i64>,
    pub title: Option<String>,
    pub description: Option<String>,
    pub minutes_estimated: Option<i64>,
    pub minutes_spent: Option<i64>,
    pub minutes_remaining: Option<i64>,
    pub minutes_billed: Option<i64>,
    pub minute_rate: Option<i64>,
}

#[derive(Debug)]
pub struct ContractCreateArgs {
    pub sender_id: i64,
    pub recipient_id: i64,
    pub contract_type: Option<String>,
    pub invoice_period_months: Option<i64>,
    pub monthly_rate: Option<i64>,
    pub contract_url: Option<String>,
}

#[derive(Debug)]
pub struct ContractUpdateArgs {
    pub sender_id: Option<i64>,
    pub recipient_id: Option<i64>,
    pub contract_type: Option<String>,
    pub invoice_period_months: Option<i64>,
    pub monthly_rate: Option<i64>,
    pub contract_url: Option<String>,
}

#[derive(Debug)]
pub struct QuoteCreateArgs {
    pub sender_id: i64,
    pub recipient_id: i64,
    pub project_duration: Option<String>,
    pub project_id: Option<i64>,
    pub remarks: Option<String>,
    pub total_before_vat: Option<i64>,
    pub discount: Option<i64>,
    pub vat_percentage: Option<i64>,
    pub currency: Option<String>,
    pub total_after_vat: Option<i64>,
    pub quote_url: Option<String>,
}

#[derive(Debug)]
pub struct QuoteUpdateArgs {
    pub sender_id: Option<i64>,
    pub recipient_id: Option<i64>,
    pub project_duration: Option<String>,
    pub project_id: Option<i64>,
    pub remarks: Option<String>,
    pub total_before_vat: Option<i64>,
    pub discount: Option<i64>,
    pub vat_percentage: Option<i64>,
    pub currency: Option<String>,
    pub total_after_vat: Option<i64>,
    pub quote_url: Option<String>,
}

#[derive(Debug)]
pub struct QuoteMakeArgs {
    pub project_id: i64,
    pub remarks: Option<String>,
    pub discount: Option<i64>,
    pub vat_percentage: Option<i64>,
    pub currency: Option<String>,
}

#[derive(Debug)]
pub struct InvoiceCreateArgs {
    pub sender_id: i64,
    pub recipient_id: i64,
    pub invoice_number: String,
    pub quote_id: Option<i64>,
    pub send_date: Option<String>,
    pub payment_due_date: Option<String>,
    pub payment_date: Option<String>,
    pub contract_id: Option<i64>,
    pub project_id: Option<i64>,
    pub remarks: Option<String>,
    pub total_before_vat: Option<i64>,
    pub discount: Option<i64>,
    pub vat_percentage: Option<i64>,
    pub currency: Option<String>,
    pub total_after_vat: Option<i64>,
    pub invoice_url: Option<String>,
    pub payment_request_url: Option<String>,
}

#[derive(Debug)]
pub struct InvoiceUpdateArgs {
    pub sender_id: Option<i64>,
    pub recipient_id: Option<i64>,
    pub invoice_number: Option<String>,
    pub quote_id: Option<i64>,
    pub send_date: Option<String>,
    pub payment_due_date: Option<String>,
    pub payment_date: Option<String>,
    pub contract_id: Option<i64>,
    pub project_id: Option<i64>,
    pub remarks: Option<String>,
    pub total_before_vat: Option<i64>,
    pub discount: Option<i64>,
    pub vat_percentage: Option<i64>,
    pub currency: Option<String>,
    pub total_after_vat: Option<i64>,
    pub invoice_url: Option<String>,
    pub payment_request_url: Option<String>,
}

#[derive(Debug)]
pub struct InvoiceMakeArgs {
    pub quote_id: Option<i64>,
    pub project_id: Option<i64>,
    pub contract_id: Option<i64>,
    pub remarks: Option<String>,
    pub discount: Option<i64>,
}

#[derive(Debug)]
pub struct ScheduleCreateArgs {
    pub contract_id: Option<i64>,
    pub project_id: Option<i64>,
    pub invoice_id: Option<i64>,
    pub quote_id: Option<i64>,
    pub query_id: Option<i64>,
    pub date: Option<String>,
    pub interval: Option<String>,
}

#[derive(Debug)]
pub struct ScheduleUpdateArgs {
    pub contract_id: Option<i64>,
    pub project_id: Option<i64>,
    pub invoice_id: Option<i64>,
    pub quote_id: Option<i64>,
    pub query_id: Option<i64>,
    pub date: Option<String>,
    pub interval: Option<String>,
}

#[derive(Debug)]
pub struct FinanceReportArgs {
    pub account_id: Option<i64>,
    pub company_id: Option<i64>,
    pub from_date: Option<String>,
    pub to_date: Option<String>,
}

#[derive(Debug)]
pub struct FinanceReportUpdateArgs {
    pub account_id: Option<i64>,
    pub company_id: Option<i64>,
    pub from_date: Option<String>,
    pub to_date: Option<String>,
}

#[derive(Debug)]
pub struct FinanceCreateQueryArgs {
    pub account_id: Option<i64>,
    pub company_id: Option<i64>,
    // ie. "7d", "1m", "1y" like ScheduleCreateArgs.interval
    pub range: Option<String>,
}

#[derive(Debug)]
pub struct FinanceUpdateQueryArgs {
    pub account_id: Option<i64>,
    pub company_id: Option<i64>,
    // ie. "7d", "1m", "1y" like ScheduleCreateArgs.interval
    pub range: Option<String>,
}

} // verus!
