//! Connectors to network management systems, and the links between a
//! network and its counterpart in such a system.
use crate::text::fields::{decimal_chars, decimal_text};
use vstd::prelude::*;
use vstd::string::StringExecFns;

verus! {

/// The kind of network management system a connector speaks to.
#[derive(Clone, Copy, Debug, PartialEq, Eq, Structural)]
pub enum NmsType {
    Unifi,
}

impl NmsType {
    /// The name the database stores for the kind.
    pub fn name(&self) -> (s: &'static str)
        ensures
            s@ == "unifi"@,
    {
        proof {
            reveal_strlit("unifi");
        }
        match self {
            NmsType::Unifi => "unifi",
        }
    }
}

/// A connector, without its secrets.
#[derive(Debug)]
pub struct NmsConnectorModel {
    pub id: i32,
    pub kind: NmsType,
    pub hostname: String,
    pub site_id: Option<String>,
}

/// A network's id in the system behind a connector.
#[derive(Debug)]
pub struct NmsLinkModel {
    pub nms_connector_id: i32,
    pub kind: NmsType,
    pub hostname: String,
    pub nms_id: String,
}

/// A new connector.
#[derive(Debug)]
pub struct PostNmsConnectorSchema {
    pub kind: NmsType,
    pub hostname: String,
    pub site_id: Option<String>,
    pub api_key: Option<String>,
    pub username: Option<String>,
    pub password: Option<String>,
}

/// A field of a change that may be left out: left out, it keeps its value.
#[derive(Clone, Debug, PartialEq, Eq)]
pub enum PatchOption<T> {
    Unchanged,
    Replace(T),
}

/// A change of a connector. Its secrets change only where given.
#[derive(Debug)]
pub struct PutNmsConnectorSchema {
    pub hostname: String,
    pub site_id: Option<String>,
    pub api_key: PatchOption<String>,
    pub username: PatchOption<String>,
    pub password: PatchOption<String>,
}

pub open spec fn given<T>(p: PatchOption<T>) -> bool {
    p is Replace
}

pub open spec fn count(b: bool) -> nat {
    if b {
        1
    } else {
        0
    }
}

/// `, column = $index` where the column is set, else nothing.
pub open spec fn set_clause(present: bool, column: Seq<char>, index: nat) -> Seq<char> {
    if present {
        ", "@ + column + " = $"@ + decimal_chars(index)
    } else {
        Seq::empty()
    }
}

/// The statement that changes a connector. The hostname and site id are
/// always set, as `$1` and `$2`; each given secret follows in the order api
/// key, user name, password; the connector's id is the last parameter.
pub open spec fn update_statement(api_key: bool, username: bool, password: bool) -> Seq<char> {
    let k = 3 + count(api_key);
    let u = k + count(username);
    let id = u + count(password);
    "UPDATE net_nms_connectors SET hostname = $1, site_id = $2"@ + set_clause(
        api_key,
        "api_key"@,
        3,
    ) + set_clause(username, "username"@, k) + set_clause(password, "password"@, u)
        + " WHERE id = $"@ + decimal_chars(id) + " RETURNING id, type, hostname, site_id"@
}

fn push_set_clause(sql: &mut String, present: bool, column: &str, index: u64)
    ensures
        final(sql)@ == old(sql)@ + set_clause(present, column@, index as nat),
{
    if present {
        sql.append(", ");
        sql.append(column);
        sql.append(" = $");
        let n = decimal_text(index);
        sql.append(n.as_str());
    } else {
        assert(old(sql)@ + set_clause(present, column@, index as nat) =~= old(sql)@);
    }
}

/// The statement that applies `body` to a connector.
pub fn connector_update_statement(body: &PutNmsConnectorSchema) -> (sql: String)
    ensures
        sql@ == update_statement(given(body.api_key), given(body.username), given(body.password)),
{
    let a = matches!(body.api_key, PatchOption::Replace(_));
    let u = matches!(body.username, PatchOption::Replace(_));
    let p = matches!(body.password, PatchOption::Replace(_));
    let mut index: u64 = 3;
    let mut sql = String::from_str("UPDATE net_nms_connectors SET hostname = $1, site_id = $2");
    push_set_clause(&mut sql, a, "api_key", index);
    if a {
        index = index + 1;
    }
    push_set_clause(&mut sql, u, "username", index);
    if u {
        index = index + 1;
    }
    push_set_clause(&mut sql, p, "password", index);
    if p {
        index = index + 1;
    }
    sql.append(" WHERE id = $");
    let n = decimal_text(index);
    sql.append(n.as_str());
    sql.append(" RETURNING id, type, hostname, site_id");
    sql
}

} // verus!
