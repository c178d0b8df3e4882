//! The named query scenarios of the Query Lab.
use vstd::prelude::*;
use crate::error::{AppError, ErrorView};
use crate::text::{concat2, str_eq};

verus! {

/// The views of a sequence of string slices.
pub open spec fn strs_view(v: Seq<&str>) -> Seq<Seq<char>> {
    v.map_values(|s: &str| s@)
}

/// The names of the scenarios; `all` comes last and runs every other one.
pub open spec fn scenario_names_spec() -> Seq<Seq<char>> {
    seq!["scan"@, "index"@, "join"@, "aggregate"@, "having"@, "subquery"@, "sort"@, "distinct"@, "mutation"@, "sargability"@, "selectivity"@, "all"@]
}

/// The queries of a scenario other than `all`.
pub open spec fn named_sql_spec(name: Seq<char>) -> Option<Seq<Seq<char>>> {
    if name == "scan"@ {
        Some(seq!["SELECT * FROM tasks;"@, "SELECT * FROM tasks WHERE id = 100;"@])
    }     else if name == "index"@ {
        Some(seq!["SELECT * FROM tasks WHERE project_id = 1;"@, "SELECT * FROM tasks WHERE done = TRUE;"@])
    }     else if name == "join"@ {
        Some(seq!["SELECT p.name, t.title FROM projects p JOIN tasks t ON t.project_id = p.id;"@, "SELECT t.title, tag.name FROM tasks t JOIN task_tags tt ON tt.task_id = t.id JOIN tags tag ON tag.id = tt.tag_id;"@, "SELECT t.id, t.title FROM tasks t JOIN projects p ON p.id = t.project_id WHERE p.id = 1 AND t.done = FALSE;"@])
    }     else if name == "aggregate"@ {
        Some(seq!["SELECT project_id, COUNT(*) FROM tasks GROUP BY project_id;"@, "SELECT MAX(priority), MIN(priority), COUNT(*) FROM tasks;"@, "SELECT p.id, p.name, COUNT(t.id) FROM projects p LEFT JOIN tasks t ON t.project_id = p.id GROUP BY p.id, p.name;"@])
    }     else if name == "having"@ {
        Some(seq!["SELECT project_id, COUNT(*) AS task_count FROM tasks GROUP BY project_id HAVING COUNT(*) >= 10;"@])
    }     else if name == "subquery"@ {
        Some(seq!["SELECT p.id, p.name FROM projects p WHERE (SELECT COUNT(*) FROM tasks t WHERE t.project_id = p.id) >= 10;"@])
    }     else if name == "sort"@ {
        Some(seq!["SELECT * FROM tasks WHERE project_id = 1 ORDER BY priority DESC, id ASC LIMIT 10;"@])
    }     else if name == "distinct"@ {
        Some(seq!["SELECT DISTINCT project_id FROM tasks;"@])
    }     else if name == "mutation"@ {
        Some(seq!["UPDATE tasks SET done = TRUE WHERE project_id = 1 AND priority >= 3;"@, "DELETE FROM task_tags WHERE tag_id = 1;"@])
    }     else if name == "sargability"@ {
        Some(seq!["SELECT * FROM tasks WHERE id = 10;"@, "SELECT * FROM tasks WHERE id + 1 = 11;"@, "SELECT * FROM tasks WHERE project_id = 1;"@, "SELECT * FROM tasks WHERE title = 'Rust';"@, "SELECT * FROM tasks WHERE LOWER(title) = 'rust';"@, "SELECT * FROM tasks WHERE title LIKE 'Rust%';"@, "SELECT * FROM tasks WHERE title LIKE '%Rust%';"@])
    }     else if name == "selectivity"@ {
        Some(seq!["SELECT * FROM tasks WHERE done = TRUE;"@, "SELECT * FROM tasks WHERE project_id = 1;"@, "SELECT t.* FROM tasks t JOIN task_tags tt ON tt.task_id = t.id WHERE tt.tag_id = 1;"@])
    } else {
        None
    }
}

/// The queries of the first `k` scenarios, one after another.
pub open spec fn scenarios_sql_upto(k: int) -> Seq<Seq<char>>
    decreases k,
{
    if k <= 0 {
        Seq::empty()
    } else {
        scenarios_sql_upto(k - 1) + named_sql_spec(scenario_names_spec()[k - 1]).unwrap()
    }
}

/// The queries of a scenario; `all` gives those of every other scenario in order.
pub open spec fn scenario_sql_spec(name: Seq<char>) -> Result<Seq<Seq<char>>, ErrorView> {
    if name == "all"@ {
        Ok(scenarios_sql_upto(11))
    } else {
        match named_sql_spec(name) {
            Some(q) => Ok(q),
            None => Err(ErrorView::Domain("Unknown lab scenario: "@ + name)),
        }
    }
}

/// The names of the scenarios.
pub fn scenario_names() -> (names: Vec<&'static str>)
    ensures
        strs_view(names@) == scenario_names_spec(),
{
    let mut v: Vec<&'static str> = Vec::new();
    v.push("scan");
    v.push("index");
    v.push("join");
    v.push("aggregate");
    v.push("having");
    v.push("subquery");
    v.push("sort");
    v.push("distinct");
    v.push("mutation");
    v.push("sargability");
    v.push("selectivity");
    v.push("all");
    assert(strs_view(v@) =~= scenario_names_spec());
    v
}

fn named_sql(name: &str) -> (r: Option<Vec<&'static str>>)
    ensures
        match r {
            Some(q) => named_sql_spec(name@) == Some(strs_view(q@)),
            None => named_sql_spec(name@) is None,
        },
{
    if str_eq(name, "scan") {
        let mut v: Vec<&'static str> = Vec::new();
        v.push("SELECT * FROM tasks;");
        v.push("SELECT * FROM tasks WHERE id = 100;");
        assert(strs_view(v@) =~= named_sql_spec(name@).unwrap());
        Some(v)
    } else if str_eq(name, "index") {
        let mut v: Vec<&'static str> = Vec::new();
        v.push("SELECT * FROM tasks WHERE project_id = 1;");
        v.push("SELECT * FROM tasks WHERE done = TRUE;");
        assert(strs_view(v@) =~= named_sql_spec(name@).unwrap());
        Some(v)
    } else if str_eq(name, "join") {
        let mut v: Vec<&'static str> = Vec::new();
        v.push("SELECT p.name, t.title FROM projects p JOIN tasks t ON t.project_id = p.id;");
        v.push("SELECT t.title, tag.name FROM tasks t JOIN task_tags tt ON tt.task_id = t.id JOIN tags tag ON tag.id = tt.tag_id;");
        v.push("SELECT t.id, t.title FROM tasks t JOIN projects p ON p.id = t.project_id WHERE p.id = 1 AND t.done = FALSE;");
        assert(strs_view(v@) =~= named_sql_spec(name@).unwrap());
        Some(v)
    } else if str_eq(name, "aggregate") {
        let mut v: Vec<&'static str> = Vec::new();
        v.push("SELECT project_id, COUNT(*) FROM tasks GROUP BY project_id;");
        v.push("SELECT MAX(priority), MIN(priority), COUNT(*) FROM tasks;");
        v.push("SELECT p.id, p.name, COUNT(t.id) FROM projects p LEFT JOIN tasks t ON t.project_id = p.id GROUP BY p.id, p.name;");
        assert(strs_view(v@) =~= named_sql_spec(name@).unwrap());
        Some(v)
    } else if str_eq(name, "having") {
        let mut v: Vec<&'static str> = Vec::new();
        v.push("SELECT project_id, COUNT(*) AS task_count FROM tasks GROUP BY project_id HAVING COUNT(*) >= 10;");
        assert(strs_view(v@) =~= named_sql_spec(name@).unwrap());
        Some(v)
    } else if str_eq(name, "subquery") {
        let mut v: Vec<&'static str> = Vec::new();
        v.push("SELECT p.id, p.name FROM projects p WHERE (SELECT COUNT(*) FROM tasks t WHERE t.project_id = p.id) >= 10;");
        assert(strs_view(v@) =~= named_sql_spec(name@).unwrap());
        Some(v)
    } else if str_eq(name, "sort") {
        let mut v: Vec<&'static str> = Vec::new();
        v.push("SELECT * FROM tasks WHERE project_id = 1 ORDER BY priority DESC, id ASC LIMIT 10;");
        assert(strs_view(v@) =~= named_sql_spec(name@).unwrap());
        Some(v)
    } else if str_eq(name, "distinct") {
        let mut v: Vec<&'static str> = Vec::new();
        v.push("SELECT DISTINCT project_id FROM tasks;");
        assert(strs_view(v@) =~= named_sql_spec(name@).unwrap());
        Some(v)
    } else if str_eq(name, "mutation") {
        let mut v: Vec<&'static str> = Vec::new();
        v.push("UPDATE tasks SET done = TRUE WHERE project_id = 1 AND priority >= 3;");
        v.push("DELETE FROM task_tags WHERE tag_id = 1;");
        assert(strs_view(v@) =~= named_sql_spec(name@).unwrap());
        Some(v)
    } else if str_eq(name, "sargability") {
        let mut v: Vec<&'static str> = Vec::new();
        v.push("SELECT * FROM tasks WHERE id = 10;");
        v.push("SELECT * FROM tasks WHERE id + 1 = 11;");
        v.push("SELECT * FROM tasks WHERE project_id = 1;");
        v.push("SELECT * FROM tasks WHERE title = 'Rust';");
        v.push("SELECT * FROM tasks WHERE LOWER(title) = 'rust';");
        v.push("SELECT * FROM tasks WHERE title LIKE 'Rust%';");
        v.push("SELECT * FROM tasks WHERE title LIKE '%Rust%';");
        assert(strs_view(v@) =~= named_sql_spec(name@).unwrap());
        Some(v)
    } else if str_eq(name, "selectivity") {
        let mut v: Vec<&'static str> = Vec::new();
        v.push("SELECT * FROM tasks WHERE done = TRUE;");
        v.push("SELECT * FROM tasks WHERE project_id = 1;");
        v.push("SELECT t.* FROM tasks t JOIN task_tags tt ON tt.task_id = t.id WHERE tt.tag_id = 1;");
        assert(strs_view(v@) =~= named_sql_spec(name@).unwrap());
        Some(v)
    } else {
        None
    }
}

/// The queries of a scenario.
pub fn scenario_sql(name: &str) -> (r: Result<Vec<&'static str>, AppError>)
    ensures
        match r {
            Ok(q) => scenario_sql_spec(name@) == Ok::<Seq<Seq<char>>, ErrorView>(strs_view(q@)),
            Err(e) => scenario_sql_spec(name@) == Err::<Seq<Seq<char>>, ErrorView>(e@),
        },
{
    if str_eq(name, "all") {
        let names = scenario_names();
        let mut all: Vec<&'static str> = Vec::new();
        let mut i: usize = 0;
        assert(strs_view(all@) =~= scenarios_sql_upto(0));
        assert(names@.len() == strs_view(names@).len());
        while i < 11
            invariant
                i <= 11,
                strs_view(names@) == scenario_names_spec(),
                names@.len() == 12,
                strs_view(all@) == scenarios_sql_upto(i as int),
            decreases 11 - i,
        {
            assert(names@[i as int]@ == strs_view(names@)[i as int]);
            let q = match named_sql(names[i]) {
                Some(q) => q,
                None => {
                    // every name but the last one is a scenario of its own
                    assert(false);
                    return Ok(all);
                },
            };
            let ghost before = strs_view(all@);
            let mut k: usize = 0;
            while k < q.len()
                invariant
                    k <= q@.len(),
                    strs_view(all@) == before + strs_view(q@).take(k as int),
                decreases q@.len() - k,
            {
                let ghost old_all = all@;
                all.push(q[k]);
                assert(strs_view(all@) =~= strs_view(old_all).push(q@[k as int]@));
                assert(strs_view(q@).take(k + 1) =~= strs_view(q@).take(k as int).push(q@[k as int]@));
                assert(strs_view(all@) =~= before + strs_view(q@).take(k + 1));
                k = k + 1;
            }
            assert(strs_view(q@).take(k as int) =~= strs_view(q@));
            i = i + 1;
        }
        Ok(all)
    } else {
        match named_sql(name) {
            Some(q) => Ok(q),
            None => Err(AppError::Domain(concat2("Unknown lab scenario: ", name))),
        }
    }
}

} // verus!
