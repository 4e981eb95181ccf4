//! The request logic of the user web service: the SQL statements it runs
//! and the responses it gives.

use vstd::prelude::*;
use crate::digits::{parse_i32, parse_i32_spec, signed_decimal, signed_decimal_string};
use crate::text::text_eq;

verus! {

/// A user as the service receives and returns it; every field may be
/// missing.
pub struct User {
    pub first_name: Option<String>,
    pub last_name: Option<String>,
    pub age: Option<i32>,
}

/// The status of a response.
#[derive(Clone, Copy, Debug, PartialEq, Eq)]
pub enum Status {
    Success,
    BadRequest,
    InternalServerError,
}

/// A response: a status and a text body.
pub struct Response {
    pub status: Status,
    pub body: String,
}

/// One row of a query result: the columns' names and values, in order.
pub type Row = Vec<(String, Option<String>)>;

/// The statement that lists every user.
pub const LIST_USERS_QUERY: &'static str = "SELECT * from users";

/// The text of a column's value: the empty text for `NULL`.
pub open spec fn value_text(v: Option<String>) -> Seq<char> {
    match v {
        Some(s) => s@,
        None => Seq::<char>::empty(),
    }
}

/// The statement that inserts a user.
pub open spec fn insert_query(first: Seq<char>, last: Seq<char>, age: int) -> Seq<char> {
    "INSERT INTO users\n         (firstName, lastName, age)\n         VALUES ('"@ + first + "', '"@
        + last + "', "@ + signed_decimal(age) + ")"@
}

/// What a request to add `user` comes to: the statement that inserts it,
/// or the message on the first missing field (first name, last name, age).
pub open spec fn create_outcome(user: User) -> Result<Seq<char>, Seq<char>> {
    match user.first_name {
        None => Err("first_name is required!"@),
        Some(first) => match user.last_name {
            None => Err("last_name is required!"@),
            Some(last) => match user.age {
                None => Err("age is required!"@),
                Some(age) => Ok(insert_query(first@, last@, age as int)),
            },
        },
    }
}

/// The assignment of one field in an update, or nothing for a missing field.
pub open spec fn set_text(prefix: Seq<char>, value: Option<String>, suffix: Seq<char>) -> Seq<char> {
    match value {
        Some(v) => prefix + v@ + suffix,
        None => Seq::<char>::empty(),
    }
}

/// The assignment of the age in an update, or nothing when it is missing.
pub open spec fn age_text(age: Option<i32>) -> Seq<char> {
    match age {
        Some(a) => "age = "@ + signed_decimal(a as int),
        None => Seq::<char>::empty(),
    }
}

/// The statement that updates the given fields of user `id`.
pub open spec fn update_query(id: int, user: User) -> Seq<char> {
    "UPDATE users \n         SET "@ + set_text("firstName = '"@, user.first_name, "',"@) + " "@
        + set_text("lastName = '"@, user.last_name, "',"@) + " "@ + age_text(user.age)
        + " \n         WHERE id = "@ + signed_decimal(id)
}

/// The end of an update statement: the age assignment when the user gives
/// an age (nothing otherwise), then the condition on the id.
pub open spec fn update_tail(id: int, age: Option<i32>) -> Seq<char> {
    match age {
        Some(a) => " age = "@ + signed_decimal(a as int) + " \n         WHERE id = "@ + signed_decimal(id),
        None => "  \n         WHERE id = "@ + signed_decimal(id),
    }
}

/// An update statement sets the age, just before its condition on the id,
/// exactly when the user gives an age, whatever names the user gives.
pub proof fn update_sets_age_exactly_when_given(id: i32, user: User)
    ensures
        update_query(id as int, user).len() >= update_tail(id as int, user.age).len(),
        update_query(id as int, user).skip(
            update_query(id as int, user).len() - update_tail(id as int, user.age).len(),
        ) == update_tail(id as int, user.age),
{
    let q = update_query(id as int, user);
    let head = "UPDATE users \n         SET "@ + set_text("firstName = '"@, user.first_name, "',"@)
        + " "@ + set_text("lastName = '"@, user.last_name, "',"@);
    let tail = update_tail(id as int, user.age);
    match user.age {
        Some(a) => {
            assert(q =~= head + tail) by {
                reveal_strlit(" age = ");
                reveal_strlit(" ");
                reveal_strlit("age = ");
                assert(" age = "@ =~= " "@ + "age = "@);
            }
        },
        None => {
            assert(q =~= head + tail) by {
                reveal_strlit("  \n         WHERE id = ");
                reveal_strlit(" \n         WHERE id = ");
                reveal_strlit(" ");
                assert("  \n         WHERE id = "@ =~= " "@ + " \n         WHERE id = "@);
            }
        },
    }
    assert(q.skip(head.len() as int) =~= tail);
}

/// The text of one row: a line `name: value` per column.
pub open spec fn row_text(row: Seq<(String, Option<String>)>) -> Seq<char>
    decreases row.len(),
{
    if row.len() == 0 {
        Seq::<char>::empty()
    } else {
        row_text(row.drop_last()) + row.last().0@ + ": "@ + value_text(row.last().1) + "\n"@
    }
}

/// The text of a query result: each row's text followed by an empty line.
pub open spec fn rows_text(rows: Seq<Row>) -> Seq<char>
    decreases rows.len(),
{
    if rows.len() == 0 {
        Seq::<char>::empty()
    } else {
        rows_text(rows.drop_last()) + row_text(rows.last()@) + "\n"@
    }
}

/// The value of the last column of `row` named `name`, if any.
pub open spec fn last_value(row: Seq<(String, Option<String>)>, name: Seq<char>) -> Option<
    Seq<char>,
>
    decreases row.len(),
{
    if row.len() == 0 {
        None
    } else if row.last().0@ == name {
        Some(value_text(row.last().1))
    } else {
        last_value(row.drop_last(), name)
    }
}

/// A text field of a listed user: the value of its last column, or the
/// empty text when the row has no such column.
pub open spec fn row_text_field(row: Seq<(String, Option<String>)>, name: Seq<char>) -> Seq<char> {
    match last_value(row, name) {
        Some(v) => v,
        None => Seq::<char>::empty(),
    }
}

/// The age of a listed user: its last `age` column read as a number, or 0
/// when the row has no such column.
pub open spec fn row_age(row: Seq<(String, Option<String>)>) -> Option<int> {
    match last_value(row, "age"@) {
        Some(v) => parse_i32_spec(v),
        None => Some(0),
    }
}

/// Whether some column of some row has a non-empty name.
pub open spec fn has_named_column(rows: Seq<Row>) -> bool {
    exists|i: int, j: int|
        0 <= i < rows.len() && 0 <= j < rows[i]@.len() && (#[trigger] rows[i]@[j]).0@.len() > 0
}

/// A response with the given status and body.
fn respond(status: Status, body: &str) -> (r: Response)
    ensures
        r.status == status,
        r.body@ == body@,
{
    Response { status, body: String::from_str(body) }
}

/// The response to a database error.
fn database_error(message: &String) -> (r: Response)
    ensures
        r.status == Status::InternalServerError,
        r.body@ == "Database Error: "@ + message@,
{
    let mut body = String::from_str("Database Error: ");
    body.append(message.as_str());
    Response { status: Status::InternalServerError, body }
}

/// The statement that inserts `user`, or the answer to a request that lacks
/// a field: the first name, then the last name, then the age are required.
pub fn create_user_query(user: &User) -> (r: Result<String, Response>)
    ensures
        match r {
            Ok(q) => create_outcome(*user) == Ok::<Seq<char>, Seq<char>>(q@),
            Err(resp) => resp.status == Status::BadRequest && create_outcome(*user) == Err::<
                Seq<char>,
                Seq<char>,
            >(resp.body@),
        },
{
    let first_name = match &user.first_name {
        Some(value) => value,
        None => {
            return Err(respond(Status::BadRequest, "first_name is required!"));
        },
    };
    let last_name = match &user.last_name {
        Some(value) => value,
        None => {
            return Err(respond(Status::BadRequest, "last_name is required!"));
        },
    };
    let age = match user.age {
        Some(value) => value,
        None => {
            return Err(respond(Status::BadRequest, "age is required!"));
        },
    };
    let age_text = signed_decimal_string(age);
    let mut query = String::from_str(
        "INSERT INTO users\n         (firstName, lastName, age)\n         VALUES ('",
    );
    query.append(first_name.as_str());
    query.append("', '");
    query.append(last_name.as_str());
    query.append("', ");
    query.append(age_text.as_str());
    query.append(")");
    Ok(query)
}

/// The statement that sets the fields that `user` gives on user `id`.
pub fn update_user_query(id: i32, user: &User) -> (q: String)
    ensures
        q@ == update_query(id as int, *user),
{
    let mut query = String::from_str("UPDATE users \n         SET ");
    match &user.first_name {
        Some(value) => {
            query.append("firstName = '");
            query.append(value.as_str());
            query.append("',");
        },
        None => {},
    }
    query.append(" ");
    match &user.last_name {
        Some(value) => {
            query.append("lastName = '");
            query.append(value.as_str());
            query.append("',");
        },
        None => {},
    }
    query.append(" ");
    match user.age {
        Some(age) => {
            let text = signed_decimal_string(age);
            query.append("age = ");
            query.append(text.as_str());
        },
        None => {},
    }
    query.append(" \n         WHERE id = ");
    let id_text = signed_decimal_string(id);
    query.append(id_text.as_str());
    query
}

/// The statement that looks user `id` up before deleting it.
pub fn find_user_query(id: i32) -> (q: String)
    ensures
        q@ == "SELECT * FROM users\n         WHERE id = "@ + signed_decimal(id as int),
{
    let mut query = String::from_str("SELECT * FROM users\n         WHERE id = ");
    let id_text = signed_decimal_string(id);
    query.append(id_text.as_str());
    query
}

/// The statement that deletes user `id`.
pub fn delete_user_query(id: i32) -> (q: String)
    ensures
        q@ == "DELETE from users\n         WHERE id = "@ + signed_decimal(id as int),
{
    let mut query = String::from_str("DELETE from users\n         WHERE id = ");
    let id_text = signed_decimal_string(id);
    query.append(id_text.as_str());
    query
}

/// The statement that reads user `id`.
pub fn detail_user_query(id: i32) -> (q: String)
    ensures
        q@ == "SELECT * from users where id = "@ + signed_decimal(id as int),
{
    let mut query = String::from_str("SELECT * from users where id = ");
    let id_text = signed_decimal_string(id);
    query.append(id_text.as_str());
    query
}

/// The answer to a statement that changes the table: `success` when it ran,
/// the database's message when it failed.
pub fn execution_response(result: &Result<(), String>, success: &str) -> (r: Response)
    ensures
        match result {
            Ok(_) => r.status == Status::Success && r.body@ == success@,
            Err(e) => r.status == Status::InternalServerError && r.body@ == "Database Error: "@
                + e@,
        },
{
    match result {
        Ok(_) => respond(Status::Success, success),
        Err(e) => database_error(e),
    }
}

/// The text of one row: a line `name: value` per column.
pub fn format_row(row: &Row) -> (s: String)
    ensures
        s@ == row_text(row@),
{
    let mut s = String::new();
    let mut i: usize = 0;
    while i < row.len()
        invariant
            i <= row@.len(),
            s@ == row_text(row@.take(i as int)),
        decreases row@.len() - i,
    {
        let entry = &row[i];
        let ghost pre = s@;
        s.append(entry.0.as_str());
        s.append(": ");
        match &entry.1 {
            Some(v) => s.append(v.as_str()),
            None => {},
        }
        s.append("\n");
        assert(row@.take(i + 1).drop_last() =~= row@.take(i as int));
        assert(s@ =~= pre + entry.0@ + ": "@ + value_text(entry.1) + "\n"@);
        i = i + 1;
    }
    assert(row@.take(row@.len() as int) =~= row@);
    s
}

/// The answer to a request for one user: the text of the rows found, or
/// "No user found" when there is none; the database's message when the
/// query failed.
pub fn detail_response(result: &Result<(), String>, rows: &Vec<Row>) -> (r: Response)
    ensures
        match result {
            Ok(_) => r.status == Status::Success && r.body@ == if rows_text(rows@).len() == 0 {
                "No user found"@
            } else {
                rows_text(rows@)
            },
            Err(e) => r.status == Status::InternalServerError && r.body@ == "Database Error: "@
                + e@,
        },
{
    match result {
        Ok(_) => {
            let mut results = String::new();
            let mut i: usize = 0;
            while i < rows.len()
                invariant
                    i <= rows@.len(),
                    results@ == rows_text(rows@.take(i as int)),
                decreases rows@.len() - i,
            {
                let text = format_row(&rows[i]);
                let ghost pre = results@;
                results.append(text.as_str());
                results.append("\n");
                assert(rows@.take(i + 1).drop_last() =~= rows@.take(i as int));
                assert(results@ =~= pre + row_text(rows@[i as int]@) + "\n"@);
                i = i + 1;
            }
            assert(rows@.take(rows@.len() as int) =~= rows@);
            if results.as_str().is_empty() {
                respond(Status::Success, "No user found")
            } else {
                Response { status: Status::Success, body: results }
            }
        },
        Err(e) => database_error(e),
    }
}

/// The answer to a deletion whose lookup found no user ("No user found"),
/// or `None` when some column of some row has a name and the deletion goes
/// on.
pub fn delete_lookup_response(rows: &Vec<Row>) -> (r: Option<Response>)
    ensures
        match r {
            None => has_named_column(rows@),
            Some(resp) => !has_named_column(rows@) && resp.status == Status::Success
                && resp.body@ == "No user found"@,
        },
{
    let mut i: usize = 0;
    while i < rows.len()
        invariant
            i <= rows@.len(),
            forall|a: int, b: int|
                0 <= a < i && 0 <= b < rows@[a]@.len() ==> (#[trigger] rows@[a]@[b]).0@.len()
                    == 0,
        decreases rows@.len() - i,
    {
        let row = &rows[i];
        let mut j: usize = 0;
        while j < row.len()
            invariant
                i < rows@.len(),
                row == rows@[i as int],
                j <= row@.len(),
                forall|b: int| 0 <= b < j ==> (#[trigger] row@[b]).0@.len() == 0,
            decreases row@.len() - j,
        {
            if !row[j].0.as_str().is_empty() {
                assert(rows@[i as int]@[j as int].0@.len() > 0);
                return None;
            }
            j = j + 1;
        }
        i = i + 1;
    }
    Some(respond(Status::Success, "No user found"))
}

/// The user that a row of the user table describes. The text fields start
/// empty and the age at 0; each column named `firstName`, `lastName` or
/// `age` sets its field, the age read as a number (missing when it is not
/// one).
pub fn user_from_row(row: &Row) -> (u: User)
    ensures
        u.first_name matches Some(f) && f@ == row_text_field(row@, "firstName"@),
        u.last_name matches Some(l) && l@ == row_text_field(row@, "lastName"@),
        match u.age {
            Some(a) => row_age(row@) == Some(a as int),
            None => row_age(row@) is None,
        },
{
    let mut first_name = String::new();
    let mut last_name = String::new();
    let mut age: Option<i32> = Some(0);
    let mut i: usize = 0;
    assert(row@.take(0) =~= Seq::<(String, Option<String>)>::empty());
    while i < row.len()
        invariant
            i <= row@.len(),
            first_name@ == row_text_field(row@.take(i as int), "firstName"@),
            last_name@ == row_text_field(row@.take(i as int), "lastName"@),
            match age {
                Some(a) => row_age(row@.take(i as int)) == Some(a as int),
                None => row_age(row@.take(i as int)) is None,
            },
        decreases row@.len() - i,
    {
        let entry = &row[i];
        let value = match &entry.1 {
            Some(v) => v.clone(),
            None => String::new(),
        };
        assert(value@ == value_text(entry.1));
        proof {
            reveal_strlit("firstName");
            reveal_strlit("lastName");
            reveal_strlit("age");
            assert("firstName"@ != "lastName"@ && "firstName"@ != "age"@ && "lastName"@ != "age"@) by {
                assert("firstName"@.len() == 9 && "lastName"@.len() == 8 && "age"@.len() == 3);
            }
        }
        let ghost prefix = row@.take(i + 1);
        assert(prefix.drop_last() =~= row@.take(i as int));
        assert(prefix.last() == *entry);
        let ghost before = row@.take(i as int);
        if text_eq(entry.0.as_str(), "firstName") {
            first_name = value;
            assert(last_value(prefix, "lastName"@) == last_value(before, "lastName"@));
            assert(last_value(prefix, "age"@) == last_value(before, "age"@));
        } else if text_eq(entry.0.as_str(), "lastName") {
            last_name = value;
            assert(last_value(prefix, "firstName"@) == last_value(before, "firstName"@));
            assert(last_value(prefix, "age"@) == last_value(before, "age"@));
        } else if text_eq(entry.0.as_str(), "age") {
            age = parse_i32(value.as_str());
            assert(last_value(prefix, "firstName"@) == last_value(before, "firstName"@));
            assert(last_value(prefix, "lastName"@) == last_value(before, "lastName"@));
        } else {
            assert(last_value(prefix, "firstName"@) == last_value(before, "firstName"@));
            assert(last_value(prefix, "lastName"@) == last_value(before, "lastName"@));
            assert(last_value(prefix, "age"@) == last_value(before, "age"@));
        }
        i = i + 1;
    }
    assert(row@.take(row@.len() as int) =~= row@);
    User { first_name: Some(first_name), last_name: Some(last_name), age }
}

/// The users of a listing, or the database's message when it failed.
pub fn list_users(result: &Result<(), String>, rows: &Vec<Row>) -> (r: Result<Vec<User>, Response>)
    ensures
        match result {
            Ok(_) => r matches Ok(users) && users@.len() == rows@.len() && forall|i: int|
                0 <= i < rows@.len() ==> {
                    let u = #[trigger] users@[i];
                    &&& u.first_name matches Some(f) && f@ == row_text_field(rows@[i]@, "firstName"@)
                    &&& u.last_name matches Some(l) && l@ == row_text_field(rows@[i]@, "lastName"@)
                    &&& match u.age {
                        Some(a) => row_age(rows@[i]@) == Some(a as int),
                        None => row_age(rows@[i]@) is None,
                    }
                },
            Err(e) => r matches Err(resp) && resp.status == Status::InternalServerError
                && resp.body@ == "Database Error: "@ + e@,
        },
{
    match result {
        Ok(_) => {
            let mut users: Vec<User> = Vec::new();
            let mut i: usize = 0;
            while i < rows.len()
                invariant
                    i <= rows@.len(),
                    users@.len() == i,
                    forall|k: int|
                        0 <= k < i ==> {
                            let u = #[trigger] users@[k];
                            &&& u.first_name matches Some(f) && f@ == row_text_field(
                                rows@[k]@,
                                "firstName"@,
                            )
                            &&& u.last_name matches Some(l) && l@ == row_text_field(
                                rows@[k]@,
                                "lastName"@,
                            )
                            &&& match u.age {
                                Some(a) => row_age(rows@[k]@) == Some(a as int),
                                None => row_age(rows@[k]@) is None,
                            }
                        },
                decreases rows@.len() - i,
            {
                let u = user_from_row(&rows[i]);
                users.push(u);
                i = i + 1;
            }
            Ok(users)
        },
        Err(e) => Err(database_error(e)),
    }
}

} // verus!
