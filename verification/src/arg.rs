//! Query arguments of the backend list pages, with their defaulting
//! accessors.

use vstd::prelude::*;

verus! {

/// Query arguments of the medicinal list page.
#[derive(Clone, Debug)]
pub struct MedicinalBackendQueryArg {
    pub page: Option<u32>,
    pub keyword: Option<String>,
    pub msg: Option<String>,
    pub is_del: Option<bool>,
    pub expired: Option<u8>,
    pub category: Option<String>,
}

impl MedicinalBackendQueryArg {
    /// The requested page, 0 when absent.
    pub open spec fn spec_page(&self) -> u32 {
        match self.page {
            Some(p) => p,
            None => 0u32,
        }
    }

    /// The search keyword, empty when absent.
    pub open spec fn spec_keyword(&self) -> Seq<char> {
        match self.keyword {
            Some(s) => s@,
            None => Seq::<char>::empty(),
        }
    }

    /// The category filter, empty when absent.
    pub open spec fn spec_category(&self) -> Seq<char> {
        match self.category {
            Some(s) => s@,
            None => Seq::<char>::empty(),
        }
    }

    /// Whether deleted records are requested, false when absent.
    pub open spec fn spec_is_del(&self) -> bool {
        match self.is_del {
            Some(b) => b,
            None => false,
        }
    }

    /// The expiry band selector, 0 when absent.
    pub open spec fn spec_expired(&self) -> u8 {
        match self.expired {
            Some(b) => b,
            None => 0u8,
        }
    }

    /// The requested page, 0 when absent.
    pub fn page(&self) -> (r: u32)
        ensures
            r == match self.page {
                Some(p) => p,
                None => 0u32,
            },
    {
        match &self.page {
            Some(p) => *p,
            None => 0,
        }
    }

    /// The search keyword, empty when absent.
    pub fn keyword(&self) -> (r: &str)
        ensures
            r@ == match self.keyword {
                Some(s) => s@,
                None => Seq::<char>::empty(),
            },
    {
        match &self.keyword {
            Some(s) => s.as_str(),
            None => {
                proof {
                    reveal_strlit("");
                    assert(""@ =~= Seq::<char>::empty());
                }
                ""
            },
        }
    }

    /// The category filter, empty when absent.
    pub fn category(&self) -> (r: &str)
        ensures
            r@ == match self.category {
                Some(s) => s@,
                None => Seq::<char>::empty(),
            },
    {
        match &self.category {
            Some(s) => s.as_str(),
            None => {
                proof {
                    reveal_strlit("");
                    assert(""@ =~= Seq::<char>::empty());
                }
                ""
            },
        }
    }

    /// Whether deleted records are requested, false when absent.
    pub fn is_del(&self) -> (r: bool)
        ensures
            r == match self.is_del {
                Some(b) => b,
                None => false,
            },
    {
        match &self.is_del {
            Some(b) => *b,
            None => false,
        }
    }

    /// The expiry band selector: 0 means no filter, 1 the already
    /// expired records, and n >= 2 the records expiring within
    /// (n - 1) * 30 days.
    pub fn expired(&self) -> (r: u8)
        ensures
            r == match self.expired {
                Some(b) => b,
                None => 0u8,
            },
    {
        match &self.expired {
            Some(b) => *b,
            None => 0,
        }
    }
}

/// Sort key of the medicinal list page.
#[derive(Clone, Copy, Debug, PartialEq, Eq, Structural)]
pub enum OrderKey {
    Validity,
    Category,
    CreatedAt,
}

impl OrderKey {
    /// The column name of the sort key.
    pub fn to_string(&self) -> (r: String)
        ensures
            r@ == match *self {
                OrderKey::Validity => "validity"@,
                OrderKey::Category => "category"@,
                OrderKey::CreatedAt => "created_at"@,
            },
    {
        match self {
            OrderKey::Validity => "validity".to_owned(),
            OrderKey::Category => "category".to_owned(),
            OrderKey::CreatedAt => "created_at".to_owned(),
        }
    }

    /// Reads a sort key from its column name; unknown names fall back
    /// to sorting by validity.
    pub fn from_name(s: &String) -> (r: OrderKey)
        ensures
            r == if s@ == "validity"@ {
                OrderKey::Validity
            } else if s@ == "category"@ {
                OrderKey::Category
            } else if s@ == "created_at"@ {
                OrderKey::CreatedAt
            } else {
                OrderKey::Validity
            },
    {
        let validity = "validity".to_owned();
        let category = "category".to_owned();
        let created_at = "created_at".to_owned();
        if *s == validity {
            OrderKey::Validity
        } else if *s == category {
            OrderKey::Category
        } else if *s == created_at {
            OrderKey::CreatedAt
        } else {
            OrderKey::Validity
        }
    }
}

/// Query arguments of the admin list page.
#[derive(Clone, Debug)]
pub struct BackendQueryArg {
    pub page: Option<u32>,
    pub keyword: Option<String>,
    pub msg: Option<String>,
    pub is_del: Option<bool>,
}

impl BackendQueryArg {
    /// The requested page, 0 when absent.
    pub fn page(&self) -> (r: u32)
        ensures
            r == match self.page {
                Some(p) => p,
                None => 0u32,
            },
    {
        match &self.page {
            Some(p) => *p,
            None => 0,
        }
    }

    /// The search keyword, empty when absent.
    pub fn keyword(&self) -> (r: &str)
        ensures
            r@ == match self.keyword {
                Some(s) => s@,
                None => Seq::<char>::empty(),
            },
    {
        match &self.keyword {
            Some(s) => s.as_str(),
            None => {
                proof {
                    reveal_strlit("");
                    assert(""@ =~= Seq::<char>::empty());
                }
                ""
            },
        }
    }

    /// Whether deleted records are requested, false when absent.
    pub fn is_del(&self) -> (r: bool)
        ensures
            r == match self.is_del {
                Some(b) => b,
                None => false,
            },
    {
        match &self.is_del {
            Some(b) => *b,
            None => false,
        }
    }
}

} // verus!
