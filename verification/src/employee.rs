//! A digital-keycard roster: employees with a role and an employment flag,
//! and the rule deciding who may enter the building.

use crate::error::EmployeeError;
use vstd::prelude::*;
use vstd::string::StringExecFns;

verus! {

/// The role of an employee, which decides building access.
#[derive(Debug, Clone, Copy, PartialEq, Eq, Structural)]
pub enum EmployeeType {
    Media,
    IT,
    Manager,
    SocialMedia,
    TechnicianSupervisor,
    KitchenStaff,
}

/// One employee on the roster.
#[derive(Debug)]
pub struct EmployeeDetails {
    pub id: u32,
    pub name: String,
    pub employee_type: EmployeeType,
    pub is_employed: bool,
}

/// Mathematical view of an [`EmployeeDetails`].
#[verifier::ext_equal]
pub struct EmployeeView {
    pub id: u32,
    pub name: Seq<char>,
    pub employee_type: EmployeeType,
    pub is_employed: bool,
}

impl View for EmployeeDetails {
    type V = EmployeeView;

    open spec fn view(&self) -> EmployeeView {
        EmployeeView {
            id: self.id,
            name: self.name@,
            employee_type: self.employee_type,
            is_employed: self.is_employed,
        }
    }
}

/// The views of a sequence of employees, in the same order.
pub open spec fn employee_views(data: Seq<EmployeeDetails>) -> Seq<EmployeeView> {
    data.map_values(|e: EmployeeDetails| e@)
}

/// The position of the first employee with this id, or -1 if none has it.
pub open spec fn employee_index(data: Seq<EmployeeView>, id: u32) -> int
    decreases data.len(),
{
    if data.len() == 0 {
        -1
    } else if data[0].id == id {
        0
    } else {
        let r = employee_index(data.drop_first(), id);
        if r == -1 {
            -1
        } else {
            r + 1
        }
    }
}

/// Whether some employee has this id.
pub open spec fn has_employee(data: Seq<EmployeeView>, id: u32) -> bool {
    employee_index(data, id) >= 0
}

/// Whether this role grants building access.
pub open spec fn role_allowed(t: EmployeeType) -> bool {
    t == EmployeeType::Media || t == EmployeeType::IT || t == EmployeeType::Manager
}

/// The message granted employees are shown.
pub open spec fn access_message(name: Seq<char>) -> Seq<char> {
    "Employee "@ + name + " can access the building"@
}

/// What `employee_index` finds: the first position with the id, or -1 when
/// the id is absent.
pub proof fn lemma_employee_index_spec(data: Seq<EmployeeView>, id: u32)
    ensures
        employee_index(data, id) == -1 ==> forall|i: int|
            0 <= i < data.len() ==> (#[trigger] data[i]).id != id,
        employee_index(data, id) != -1 ==> {
            let k = employee_index(data, id);
            &&& 0 <= k < data.len()
            &&& data[k].id == id
            &&& forall|i: int| 0 <= i < k ==> (#[trigger] data[i]).id != id
        },
    decreases data.len(),
{
    if data.len() > 0 && data[0].id != id {
        let rest = data.drop_first();
        lemma_employee_index_spec(rest, id);
        let r = employee_index(rest, id);
        if r == -1 {
            assert forall|i: int| 0 <= i < data.len() implies (#[trigger] data[i]).id != id by {
                if i > 0 {
                    assert(rest[i - 1] == data[i]);
                }
            }
        } else {
            assert(data[r + 1] == rest[r]);
            assert forall|i: int| 0 <= i < r + 1 implies (#[trigger] data[i]).id != id by {
                if i > 0 {
                    assert(rest[i - 1] == data[i]);
                }
            }
        }
    }
}

/// A position whose prefix is free of the id and which carries the id is
/// exactly what `employee_index` returns.
pub proof fn lemma_employee_index_first(data: Seq<EmployeeView>, id: u32, i: int)
    requires
        0 <= i < data.len(),
        data[i].id == id,
        forall|j: int| 0 <= j < i ==> (#[trigger] data[j]).id != id,
    ensures
        employee_index(data, id) == i,
    decreases i,
{
    let rest = data.drop_first();
    if i == 0 {
    } else {
        assert(data[0].id != id);
        assert(rest[i - 1] == data[i]);
        assert forall|j: int| 0 <= j < i - 1 implies (#[trigger] rest[j]).id != id by {
            assert(rest[j] == data[j + 1]);
        }
        lemma_employee_index_first(rest, id, i - 1);
    }
}

/// The employee roster, with ids assigned in order of hiring starting at 1.
#[derive(Debug)]
pub struct Employee {
    pub data: Vec<EmployeeDetails>,
    pub next_id: u32,
}

/// Finds the first employee with this id, as `employee_index` does on the
/// roster's view.
fn find_employee_index(data: &Vec<EmployeeDetails>, id: u32) -> (r: Option<usize>)
    ensures
        match r {
            Some(i) => i < data@.len() && employee_index(employee_views(data@), id) == i as int,
            None => employee_index(employee_views(data@), id) == -1,
        },
{
    let ghost s = employee_views(data@);
    let mut i: usize = 0;
    let n: usize = data.len();
    while i < n
        invariant
            i <= n,
            n == data@.len(),
            s == employee_views(data@),
            forall|j: int| 0 <= j < i ==> (#[trigger] s[j]).id != id,
        decreases n - i,
    {
        if data[i].id == id {
            proof {
                assert(s[i as int] == data@[i as int]@);
                lemma_employee_index_first(s, id, i as int);
            }
            return Some(i);
        }
        proof {
            assert(s[i as int] == data@[i as int]@);
        }
        i = i + 1;
    }
    proof {
        lemma_employee_index_spec(s, id);
        if employee_index(s, id) != -1 {
            assert(s[employee_index(s, id)].id == id);
        }
    }
    None
}

impl Employee {
    /// An empty roster, with the first id to assign being 1.
    pub fn new() -> (r: Employee)
        ensures
            r.data@ == Seq::<EmployeeDetails>::empty(),
            r.next_id == 1,
    {
        Employee { data: Vec::new(), next_id: 1 }
    }

    /// Hires an employee: appends a record with the next id and the given
    /// name, role and employment flag, and advances the id counter.
    pub fn add_employee(&mut self, name: String, employee_type: EmployeeType, is_employed: bool)
        requires
            old(self).next_id < u32::MAX,
        ensures
            employee_views(final(self).data@) == employee_views(old(self).data@).push(
                (EmployeeView { id: old(self).next_id, name: name@, employee_type, is_employed }),
            ),
            final(self).next_id == old(self).next_id + 1,
    {
        let ghost nv = name@;
        let employee = EmployeeDetails { id: self.next_id, name, employee_type, is_employed };
        self.data.push(employee);
        self.next_id = self.next_id + 1;
        proof {
            assert(employee_views(self.data@) =~= employee_views(old(self).data@).push(
                (EmployeeView {
                    id: old(self).next_id,
                    name: nv,
                    employee_type,
                    is_employed,
                }),
            ));
        }
    }

    /// Decides building access for the employee with this id: unknown ids
    /// are not found, terminated employees are refused before their role is
    /// considered, and only the media, IT and manager roles may enter.
    pub fn check_access(&self, employee_id: u32) -> (r: Result<String, EmployeeError>)
        ensures
            ({
                let es = employee_views(self.data@);
                let k = employee_index(es, employee_id);
                &&& k == -1 ==> r == Err::<String, EmployeeError>(EmployeeError::EmployeeNotFound)
                &&& k >= 0 && !es[k].is_employed ==> r == Err::<String, EmployeeError>(
                    EmployeeError::EmployeeTerminated,
                )
                &&& k >= 0 && es[k].is_employed && !role_allowed(es[k].employee_type) ==> r
                    == Err::<String, EmployeeError>(EmployeeError::EmployeeNotAllowed)
                &&& k >= 0 && es[k].is_employed && role_allowed(es[k].employee_type) ==> (
                r matches Ok(m) && m@ == access_message(es[k].name))
            }),
    {
        let i = match find_employee_index(&self.data, employee_id) {
            None => {
                return Err(EmployeeError::EmployeeNotFound);
            },
            Some(i) => i,
        };
        proof {
            assert(employee_views(self.data@)[i as int] == self.data@[i as int]@);
        }
        let employee = &self.data[i];
        if !employee.is_employed {
            return Err(EmployeeError::EmployeeTerminated);
        }
        match employee.employee_type {
            EmployeeType::Media | EmployeeType::IT | EmployeeType::Manager => {
                let message = "Employee ".to_owned().concat(employee.name.as_str()).concat(
                    " can access the building",
                );
                Ok(message)
            },
            EmployeeType::SocialMedia | EmployeeType::TechnicianSupervisor
            | EmployeeType::KitchenStaff => Err(EmployeeError::EmployeeNotAllowed),
        }
    }
}

} // verus!
