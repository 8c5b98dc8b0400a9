//! A member of staff as a typed value, beside its form as a record.

use crate::calendar::Date;
use crate::record::{conforms, Record, Value, ValueView, views};
use crate::schema::{columns_of, RecordType};
use vstd::prelude::*;

verus! {

/// A member of staff.
#[derive(Debug, PartialEq, Eq)]
pub struct Employee {
    pub emp_no: i32,
    pub birth_date: Date,
    pub first_name: String,
    pub last_name: String,
    pub gender: String,
    pub hire_date: Date,
}

impl Employee {
    /// The values of the employee in the column order of its record type.
    pub open spec fn record_view(&self) -> Seq<ValueView> {
        seq![
            ValueView::Int(self.emp_no as int),
            ValueView::Day(self.birth_date@),
            ValueView::Text(self.first_name@),
            ValueView::Text(self.last_name@),
            ValueView::Text(self.gender@),
            ValueView::Day(self.hire_date@),
        ]
    }

    /// The employee as a record.
    pub fn to_record(&self) -> (out: Record)
        ensures
            out@ == self.record_view(),
            conforms(columns_of(RecordType::Person), out@),
    {
        let mut values: Vec<Value> = Vec::new();
        values.push(Value::Int(self.emp_no));
        values.push(Value::Day(self.birth_date));
        values.push(Value::Text(self.first_name.clone()));
        values.push(Value::Text(self.last_name.clone()));
        values.push(Value::Text(self.gender.clone()));
        values.push(Value::Day(self.hire_date));
        assert(views(values@) =~= self.record_view());
        Record { values }
    }

    /// The employee that a record holds, where the record is one of a
    /// person.
    pub fn from_record(record: &Record) -> (out: Option<Employee>)
        ensures
            out is Some == conforms(columns_of(RecordType::Person), record@),
            out is Some ==> out->0.record_view() == record@,
    {
        if record.values.len() != 6 {
            return None;
        }
        proof {
            let columns = columns_of(RecordType::Person);
            if conforms(columns, record@) {
                assert(crate::record::fits(columns[0].kind, record@[0]));
                assert(crate::record::fits(columns[1].kind, record@[1]));
                assert(crate::record::fits(columns[2].kind, record@[2]));
                assert(crate::record::fits(columns[3].kind, record@[3]));
                assert(crate::record::fits(columns[4].kind, record@[4]));
                assert(crate::record::fits(columns[5].kind, record@[5]));
            }
        }
        match (
            &record.values[0],
            &record.values[1],
            &record.values[2],
            &record.values[3],
            &record.values[4],
            &record.values[5],
        ) {
            (
                Value::Int(emp_no),
                Value::Day(birth_date),
                Value::Text(first_name),
                Value::Text(last_name),
                Value::Text(gender),
                Value::Day(hire_date),
            ) => {
                let out = Employee {
                    emp_no: *emp_no,
                    birth_date: *birth_date,
                    first_name: first_name.clone(),
                    last_name: last_name.clone(),
                    gender: gender.clone(),
                    hire_date: *hire_date,
                };
                assert(out.record_view() =~= record@);
                Some(out)
            },
            _ => None,
        }
    }
}

} // verus!
