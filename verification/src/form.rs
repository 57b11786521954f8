//! Form payloads: the plain values the handlers hand to the store.

use vstd::prelude::*;

use crate::dates::Date;

verus! {

/// The login form.
#[derive(Clone, Debug)]
pub struct AdminLogin {
    pub username: String,
    pub password: String,
    pub hcaptcha_response: String,
}

/// A new inventory record, as produced by the add form or by ingestion.
#[derive(Clone, Debug, PartialEq)]
pub struct CreateMedicinal {
    pub name: String,
    pub category: String,
    pub batch_number: String,
    pub spec: String,
    pub count: String,
    pub validity: Date,
}

/// The plain values of a new inventory record, for specifications.
pub ghost struct CreateMedicinalView {
    pub name: Seq<char>,
    pub category: Seq<char>,
    pub batch_number: Seq<char>,
    pub spec: Seq<char>,
    pub count: Seq<char>,
    pub validity: Date,
}

impl DeepView for CreateMedicinal {
    type V = CreateMedicinalView;

    open spec fn deep_view(&self) -> CreateMedicinalView {
        self.view()
    }
}

impl View for CreateMedicinal {
    type V = CreateMedicinalView;

    open spec fn view(&self) -> CreateMedicinalView {
        CreateMedicinalView {
            name: self.name@,
            category: self.category@,
            batch_number: self.batch_number@,
            spec: self.spec@,
            count: self.count@,
            validity: self.validity,
        }
    }
}

/// An edit of an existing inventory record.
#[derive(Clone, Debug, PartialEq)]
pub struct UpdateMedicinal {
    pub id: i32,
    pub name: String,
    pub category: String,
    pub batch_number: String,
    pub spec: String,
    pub count: String,
    pub validity: Date,
}

/// The new-admin form.
#[derive(Clone, Debug)]
pub struct CreateAdmin {
    pub username: String,
    pub password: String,
    pub re_password: String,
}

/// The edit-admin form.
#[derive(Clone, Debug)]
pub struct UpdateAdmin {
    pub id: i32,
    pub username: String,
    pub password: String,
    pub new_password: String,
    pub re_password: String,
}

/// The change-password form.
#[derive(Clone, Debug)]
pub struct ChangeAdminPassword {
    pub id: i32,
    pub username: String,
    pub password: String,
    pub new_password: String,
    pub re_password: String,
}

} // verus!
