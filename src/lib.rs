//! A payroll ledger: payroll and employee records kept at derived addresses,
//! with administrator-gated mutation and a recurring payment schedule.

pub mod address;
pub mod laws;
pub mod ledger;
pub mod records;
pub mod schedule;
