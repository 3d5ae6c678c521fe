//! A class register: student records with a name, a letter grade and an
//! active/inactive status, looked up by numeric id.

use vstd::prelude::*;

verus! {

/// Whether a student is currently active.
#[derive(Debug, Clone, Copy, PartialEq, Eq, Structural)]
pub enum StudentStatus {
    Active,
    Inactive,
}

/// A letter grade.
#[derive(Debug, Clone, Copy, PartialEq, Eq, Structural)]
pub enum Grade {
    A,
    B,
    C,
    D,
    F,
}

/// A student record.
#[derive(Debug)]
pub struct Student {
    pub id: u32,
    pub name: String,
    pub grade: Grade,
    pub status: StudentStatus,
}

/// Mathematical view of a [`Student`].
#[verifier::ext_equal]
pub struct StudentView {
    pub id: u32,
    pub name: Seq<char>,
    pub grade: Grade,
    pub status: StudentStatus,
}

impl View for Student {
    type V = StudentView;

    open spec fn view(&self) -> StudentView {
        StudentView { id: self.id, name: self.name@, grade: self.grade, status: self.status }
    }
}

/// The views of a sequence of students, in the same order.
pub open spec fn student_views(students: Seq<Student>) -> Seq<StudentView> {
    students.map_values(|s: Student| s@)
}

/// The position of the first student with this id, or -1 if none has it.
pub open spec fn student_index(students: Seq<StudentView>, id: u32) -> int
    decreases students.len(),
{
    if students.len() == 0 {
        -1
    } else if students[0].id == id {
        0
    } else {
        let r = student_index(students.drop_first(), id);
        if r == -1 {
            -1
        } else {
            r + 1
        }
    }
}

/// Whether some student has this id.
pub open spec fn has_student(students: Seq<StudentView>, id: u32) -> bool {
    student_index(students, id) >= 0
}

/// The register without the students carrying this id.
pub open spec fn without_student(students: Seq<StudentView>, id: u32) -> Seq<StudentView> {
    students.filter(|s: StudentView| s.id != id)
}

/// What `student_index` finds: the first position with the id, or -1 when
/// the id is absent.
pub proof fn lemma_student_index_spec(students: Seq<StudentView>, id: u32)
    ensures
        student_index(students, id) == -1 ==> forall|i: int|
            0 <= i < students.len() ==> (#[trigger] students[i]).id != id,
        student_index(students, id) != -1 ==> {
            let k = student_index(students, id);
            &&& 0 <= k < students.len()
            &&& students[k].id == id
            &&& forall|i: int| 0 <= i < k ==> (#[trigger] students[i]).id != id
        },
    decreases students.len(),
{
    if students.len() > 0 && students[0].id != id {
        let rest = students.drop_first();
        lemma_student_index_spec(rest, id);
        let r = student_index(rest, id);
        if r == -1 {
            assert forall|i: int| 0 <= i < students.len() implies (#[trigger] students[i]).id
                != id by {
                if i > 0 {
                    assert(rest[i - 1] == students[i]);
                }
            }
        } else {
            assert(students[r + 1] == rest[r]);
            assert forall|i: int| 0 <= i < r + 1 implies (#[trigger] students[i]).id != id by {
                if i > 0 {
                    assert(rest[i - 1] == students[i]);
                }
            }
        }
    }
}

/// A position whose prefix is free of the id and which carries the id is
/// exactly what `student_index` returns.
pub proof fn lemma_student_index_first(students: Seq<StudentView>, id: u32, i: int)
    requires
        0 <= i < students.len(),
        students[i].id == id,
        forall|j: int| 0 <= j < i ==> (#[trigger] students[j]).id != id,
    ensures
        student_index(students, id) == i,
    decreases i,
{
    let rest = students.drop_first();
    if i == 0 {
    } else {
        assert(students[0].id != id);
        assert(rest[i - 1] == students[i]);
        assert forall|j: int| 0 <= j < i - 1 implies (#[trigger] rest[j]).id != id by {
            assert(rest[j] == students[j + 1]);
        }
        lemma_student_index_first(rest, id, i - 1);
    }
}

/// The class register, holding students in registration order.
pub struct SchoolManagementSystem {
    pub students: Vec<Student>,
}

impl View for SchoolManagementSystem {
    type V = Seq<StudentView>;

    open spec fn view(&self) -> Seq<StudentView> {
        student_views(self.students@)
    }
}

/// Finds the first student with this id, as `student_index` does on the
/// register's view.
fn find_student_index(students: &Vec<Student>, id: u32) -> (r: Option<usize>)
    ensures
        match r {
            Some(i) => i < students@.len() && student_index(student_views(students@), id)
                == i as int,
            None => student_index(student_views(students@), id) == -1,
        },
{
    let ghost s = student_views(students@);
    let mut i: usize = 0;
    let n: usize = students.len();
    while i < n
        invariant
            i <= n,
            n == students@.len(),
            s == student_views(students@),
            forall|j: int| 0 <= j < i ==> (#[trigger] s[j]).id != id,
        decreases n - i,
    {
        if students[i].id == id {
            proof {
                assert(s[i as int] == students@[i as int]@);
                lemma_student_index_first(s, id, i as int);
            }
            return Some(i);
        }
        proof {
            assert(s[i as int] == students@[i as int]@);
        }
        i = i + 1;
    }
    proof {
        lemma_student_index_spec(s, id);
        if student_index(s, id) != -1 {
            assert(s[student_index(s, id)].id == id);
        }
    }
    None
}

impl SchoolManagementSystem {
    /// An empty register.
    pub fn new() -> (r: SchoolManagementSystem)
        ensures
            r@ == Seq::<StudentView>::empty(),
    {
        let r = SchoolManagementSystem { students: Vec::new() };
        proof {
            assert(r@ =~= Seq::<StudentView>::empty());
        }
        r
    }

    /// Appends a student record to the register as it is given.
    pub fn register_student(&mut self, student: Student)
        ensures
            final(self)@ == old(self)@.push(student@),
    {
        let ghost sv = student@;
        self.students.push(student);
        proof {
            assert(self@ =~= old(self)@.push(sv));
        }
    }

    /// Replaces the name, grade and status of the first student whose id
    /// matches the given record, leaving the register unchanged and
    /// reporting failure when no student has that id.
    pub fn update_student(&mut self, updated_student: Student) -> (found: bool)
        ensures
            !has_student(old(self)@, updated_student.id) ==> !found && final(self)@ == old(
                self,
            )@,
            has_student(old(self)@, updated_student.id) ==> found && final(self)@ == old(
                self,
            )@.update(student_index(old(self)@, updated_student.id), updated_student@),
    {
        let ghost uv = updated_student@;
        match find_student_index(&self.students, updated_student.id) {
            None => false,
            Some(i) => {
                let Student { id: _, name, grade, status } = updated_student;
                self.students[i].name = name;
                self.students[i].grade = grade;
                self.students[i].status = status;
                proof {
                    lemma_student_index_spec(old(self)@, uv.id);
                    assert(old(self)@[i as int].id == uv.id);
                    assert(self@ =~= old(self)@.update(i as int, uv));
                }
                true
            },
        }
    }

    /// Removes every student with this id from the register.
    pub fn delete_student(&mut self, id: u32)
        ensures
            final(self)@ == without_student(old(self)@, id),
    {
        let ghost orig = self@;
        let mut kept: Vec<Student> = Vec::new();
        let mut i: usize = 0;
        let n: usize = self.students.len();
        proof {
            assert(orig.subrange(0, 0) =~= Seq::<StudentView>::empty());
            reveal_with_fuel(Seq::filter, 1);
        }
        while i < n
            invariant
                i <= n,
                n == self.students@.len(),
                self.students@ == old(self).students@,
                orig == student_views(self.students@),
                student_views(kept@) == without_student(orig.subrange(0, i as int), id),
            decreases n - i,
        {
            let ghost prev = orig.subrange(0, i as int);
            let ghost cur = orig.subrange(0, i as int + 1);
            proof {
                assert(cur.drop_last() =~= prev);
                assert(cur.last() == orig[i as int]);
                assert(orig[i as int] == self.students@[i as int]@);
                reveal_with_fuel(Seq::filter, 1);
            }
            let s = &self.students[i];
            if s.id != id {
                let copy = Student {
                    id: s.id,
                    name: s.name.clone(),
                    grade: s.grade,
                    status: s.status,
                };
                kept.push(copy);
                proof {
                    assert(student_views(kept@) =~= without_student(cur, id));
                }
            } else {
                proof {
                    assert(student_views(kept@) =~= without_student(cur, id));
                }
            }
            i = i + 1;
        }
        proof {
            assert(orig.subrange(0, n as int) =~= orig);
        }
        self.students = kept;
    }

    /// Looks the first student with this id up; yields nothing if and only
    /// if no student has the id.
    pub fn view_student(&self, id: u32) -> (r: Option<&Student>)
        ensures
            has_student(self@, id) ==> (r matches Some(s) && s@ == self@[student_index(
                self@,
                id,
            )]),
            !has_student(self@, id) ==> r is None,
    {
        match find_student_index(&self.students, id) {
            Some(i) => Some(&self.students[i]),
            None => None,
        }
    }

    /// Sets the status of the first student with this id and returns the
    /// updated record; leaves the register unchanged and yields nothing
    /// when no student has the id.
    pub fn update_student_status_by_id(&mut self, id: u32, status: StudentStatus) -> (r: Option<
        &Student,
    >)
        ensures
            !has_student(old(self)@, id) ==> r is None && final(self)@ == old(self)@,
            has_student(old(self)@, id) ==> {
                let k = student_index(old(self)@, id);
                &&& final(self)@ == old(self)@.update(
                    k,
                    (StudentView { status, ..old(self)@[k] }),
                )
                &&& (r matches Some(s) && s@ == final(self)@[k])
            },
    {
        match find_student_index(&self.students, id) {
            None => None,
            Some(i) => {
                self.students[i].status = status;
                proof {
                    assert(self@ =~= old(self)@.update(
                        i as int,
                        (StudentView { status, ..old(self)@[i as int] }),
                    ));
                }
                Some(&self.students[i])
            },
        }
    }
}

} // verus!
