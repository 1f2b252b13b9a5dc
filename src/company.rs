//! A company's employee directory: employees are added to departments, and
//! a department's employees are listed in alphabetical order.

use vstd::prelude::*;

verus! {

broadcast use vstd::string::group_string_axioms;

/// A department of the company.
#[derive(Debug, Clone, Copy, PartialEq, Eq, Structural)]
pub enum Department {
    Engineering,
    Sales,
    Marketing,
    HumanResources,
}

/// A request to the directory.
pub enum Command {
    /// Adds an employee (first) to a department (second), both by name.
    Add(String, String),
    /// Lists the employees of a department, by name.
    Retrieve(String),
}

/// The department whose name is `s`, if any.
pub open spec fn department_named(s: Seq<char>) -> Option<Department> {
    if s == "Engineering"@ {
        Some(Department::Engineering)
    } else if s == "Sales"@ {
        Some(Department::Sales)
    } else if s == "Marketing"@ {
        Some(Department::Marketing)
    } else if s == "HumanResources"@ {
        Some(Department::HumanResources)
    } else {
        None
    }
}

/// Looks up a department by its name.
pub fn parse_department(name: &String) -> (r: Option<Department>)
    ensures
        r == department_named(name@),
{
    if name.eq(&"Engineering".to_string()) {
        Some(Department::Engineering)
    } else if name.eq(&"Sales".to_string()) {
        Some(Department::Sales)
    } else if name.eq(&"Marketing".to_string()) {
        Some(Department::Marketing)
    } else if name.eq(&"HumanResources".to_string()) {
        Some(Department::HumanResources)
    } else {
        None
    }
}

/// Whether `a` comes before `b`, or equals it, in the order of strings:
/// character by character, then the shorter first.
pub open spec fn text_le(a: Seq<char>, b: Seq<char>) -> bool
    decreases a.len(),
{
    if a.len() == 0 {
        true
    } else if b.len() == 0 {
        false
    } else if a[0] != b[0] {
        (a[0] as u32) < (b[0] as u32)
    } else {
        text_le(a.drop_first(), b.drop_first())
    }
}

/// Relies on `slice::sort` on strings, which orders them as `text_le` does
/// (byte-wise order of UTF-8 is the order of the characters): the same
/// strings, in ascending order.
#[verifier::external_body]
fn sort_names(v: &mut Vec<String>)
    ensures
        final(v)@.map_values(|s: String| s@).to_multiset() == old(v)@.map_values(|s: String| s@).to_multiset(),
        forall|i: int, j: int|
            0 <= i < j < final(v)@.len() ==> text_le(#[trigger] final(v)@[i]@, #[trigger] final(v)@[j]@),
{
    v.sort();
}

/// The employees of each department, in the order in which they were added.
pub struct Company {
    engineering: Vec<String>,
    sales: Vec<String>,
    marketing: Vec<String>,
    human_resources: Vec<String>,
}

impl Company {
    /// The names of the employees of department `d`, in the order in which
    /// they were added.
    pub closed spec fn employees(&self, d: Department) -> Seq<Seq<char>> {
        let v = match d {
            Department::Engineering => self.engineering@,
            Department::Sales => self.sales@,
            Department::Marketing => self.marketing@,
            Department::HumanResources => self.human_resources@,
        };
        v.map_values(|s: String| s@)
    }

    /// A company without employees.
    pub fn new() -> (r: Company)
        ensures
            forall|d: Department| #[trigger] r.employees(d) == Seq::<Seq<char>>::empty(),
    {
        let r = Company {
            engineering: Vec::new(),
            sales: Vec::new(),
            marketing: Vec::new(),
            human_resources: Vec::new(),
        };
        assert forall|d: Department| #[trigger] r.employees(d) == Seq::<Seq<char>>::empty() by {
            assert(r.employees(d) =~= Seq::<Seq<char>>::empty());
        }
        r
    }

    /// Adds `employee` to the department named `department`.
    pub fn add_employee(&mut self, employee: String, department: String)
        requires
            department_named(department@) is Some,
        ensures
            forall|d: Department| #[trigger] final(self).employees(d) == if Some(d) == department_named(department@) {
                old(self).employees(d).push(employee@)
            } else {
                old(self).employees(d)
            },
    {
        let d = parse_department(&department);
        let ghost e = employee@;
        match d {
            Some(Department::Engineering) => self.engineering.push(employee),
            Some(Department::Sales) => self.sales.push(employee),
            Some(Department::Marketing) => self.marketing.push(employee),
            _ => self.human_resources.push(employee),
        }
        assert forall|d: Department| #[trigger] self.employees(d) == if Some(d) == department_named(department@) {
            old(self).employees(d).push(e)
        } else {
            old(self).employees(d)
        } by {
            if Some(d) == department_named(department@) {
                assert(self.employees(d) =~= old(self).employees(d).push(e));
            }
        }
    }

    /// The employees of the department named `department`, in alphabetical
    /// order. At least one employee must have been added to it.
    pub fn retrieve_employees(&self, department: String) -> (r: Vec<String>)
        requires
            department_named(department@) is Some,
            self.employees(department_named(department@)->0).len() > 0,
        ensures
            r@.map_values(|s: String| s@).to_multiset()
                == self.employees(department_named(department@)->0).to_multiset(),
            forall|i: int, j: int| 0 <= i < j < r@.len() ==> text_le(#[trigger] r@[i]@, #[trigger] r@[j]@),
    {
        let d = parse_department(&department);
        let mut sorted_employees = match d {
            Some(Department::Engineering) => self.engineering.clone(),
            Some(Department::Sales) => self.sales.clone(),
            Some(Department::Marketing) => self.marketing.clone(),
            _ => self.human_resources.clone(),
        };
        let ghost before = sorted_employees@.map_values(|s: String| s@);
        assert(before =~= self.employees(department_named(department@)->0));
        sort_names(&mut sorted_employees);
        sorted_employees
    }

    /// Carries out `command`; a listing is made and dropped.
    pub fn execute_command(&mut self, command: Command)
        requires
            match command {
                Command::Add(_, department) => department_named(department@) is Some,
                Command::Retrieve(department) => department_named(department@) is Some
                    && old(self).employees(department_named(department@)->0).len() > 0,
            },
        ensures
            match command {
                Command::Add(employee, department) => forall|d: Department|
                    #[trigger] final(self).employees(d) == if Some(d) == department_named(department@) {
                        old(self).employees(d).push(employee@)
                    } else {
                        old(self).employees(d)
                    },
                Command::Retrieve(_) => *final(self) == *old(self),
            },
    {
        match command {
            Command::Add(employee, department) => self.add_employee(employee, department),
            Command::Retrieve(department) => {
                let _employees_in_department = self.retrieve_employees(department);
            },
        }
    }
}

} // verus!
