use vstd::prelude::*;

use crate::configuration::{get_setting, settings_map, SettingsMap};
use crate::data::{Criticality, DataPoint, Host};
use crate::error::LkError;
use crate::modules::strings_view;

verus! {

/// `a` comes no later than `b` in the order of their characters, as strings compare.
pub open spec fn lex_le(a: Seq<char>, b: Seq<char>) -> bool
    decreases a.len(),
{
    if a.len() == 0 {
        true
    } else if b.len() == 0 {
        false
    } else if (a[0] as u32) != (b[0] as u32) {
        (a[0] as u32) < (b[0] as u32)
    } else {
        lex_le(a.drop_first(), b.drop_first())
    }
}

pub proof fn lemma_lex_total(a: Seq<char>, b: Seq<char>)
    ensures
        lex_le(a, b) || lex_le(b, a),
    decreases a.len(),
{
    if a.len() > 0 && b.len() > 0 && (a[0] as u32) == (b[0] as u32) {
        lemma_lex_total(a.drop_first(), b.drop_first());
    }
}

pub proof fn lemma_lex_transitive(a: Seq<char>, b: Seq<char>, c: Seq<char>)
    requires
        lex_le(a, b),
        lex_le(b, c),
    ensures
        lex_le(a, c),
    decreases a.len(),
{
    if a.len() > 0 && b.len() > 0 && c.len() > 0 && (a[0] as u32) == (b[0] as u32) && (b[0] as u32) == (c[0] as u32) {
        lemma_lex_transitive(a.drop_first(), b.drop_first(), c.drop_first());
    }
}

pub fn string_le(a: &String, b: &String) -> (r: bool)
    ensures
        r == lex_le(a@, b@),
{
    let sa = a.as_str();
    let sb = b.as_str();
    let na = sa.unicode_len();
    let nb = sb.unicode_len();
    let mut i: usize = 0;
    assert(a@.subrange(0, na as int) =~= a@);
    assert(b@.subrange(0, nb as int) =~= b@);
    while i < na && i < nb && (sa.get_char(i) as u32) == (sb.get_char(i) as u32)
        invariant
            na == a@.len(),
            nb == b@.len(),
            sa@ == a@,
            sb@ == b@,
            i <= na,
            i <= nb,
            lex_le(a@, b@) == lex_le(a@.subrange(i as int, na as int), b@.subrange(i as int, nb as int)),
        decreases na - i,
    {
        proof {
            let ra = a@.subrange(i as int, na as int);
            let rb = b@.subrange(i as int, nb as int);
            assert(ra.drop_first() =~= a@.subrange(i as int + 1, na as int));
            assert(rb.drop_first() =~= b@.subrange(i as int + 1, nb as int));
        }
        i = i + 1;
    }
    if i == na {
        return true;
    }
    if i == nb {
        return false;
    }
    proof {
        let ra = a@.subrange(i as int, na as int);
        let rb = b@.subrange(i as int, nb as int);
        assert(ra[0] == a@[i as int]);
        assert(rb[0] == b@[i as int]);
    }
    (sa.get_char(i) as u32) < (sb.get_char(i) as u32)
}

/// What the docker API reports of a container, its state already read as a criticality.
#[derive(Clone, Debug)]
pub struct ContainerDetails {
    pub id: String,
    pub image: String,
    pub status: String,
    pub criticality: Criticality,
    pub labels: SettingsMap,
}

pub open spec fn label_of(c: ContainerDetails, key: Seq<char>) -> Option<Seq<char>> {
    if settings_map(c.labels@).contains_key(key) {
        Some(settings_map(c.labels@)[key])
    } else {
        None
    }
}

pub open spec fn sorted_by_label(points: Seq<DataPoint>) -> bool {
    forall|i: int, j: int| 0 <= i < j < points.len() ==> lex_le((#[trigger] points[i]).label@, (#[trigger] points[j]).label@)
}

/// Project groups in name order, each name once, each group non-empty and in service order,
/// and every service point carrying its compose file and service name.
pub open spec fn groups_ok(groups: Seq<(String, Vec<DataPoint>)>) -> bool {
    &&& forall|i: int, j: int|
        0 <= i < j < groups.len() ==> lex_le((#[trigger] groups[i]).0@, (#[trigger] groups[j]).0@) && groups[i].0@
            != groups[j].0@
    &&& forall|i: int| 0 <= i < groups.len() ==> sorted_by_label((#[trigger] groups[i]).1@) && groups[i].1@.len() > 0
    &&& forall|i: int, k: int|
        0 <= i < groups.len() && 0 <= k < groups[i].1@.len() ==> (#[trigger] groups[i].1@[k]).command_params@.len() == 2
}

/// Inserting `x` after every point whose label is not later keeps the service order.
proof fn lemma_insert_point_sorted(before: Seq<DataPoint>, pos: int, x: DataPoint)
    requires
        sorted_by_label(before),
        0 <= pos <= before.len(),
        forall|k: int| 0 <= k < pos ==> lex_le((#[trigger] before[k]).label@, x.label@),
        pos < before.len() ==> !lex_le(before[pos].label@, x.label@),
    ensures
        sorted_by_label(before.insert(pos, x)),
{
    let after = before.insert(pos, x);
    if pos < before.len() {
        lemma_lex_total(before[pos].label@, x.label@);
    }
    assert forall|i: int, j: int| 0 <= i < j < after.len() implies lex_le((#[trigger] after[i]).label@, (#[trigger] after[j]).label@) by {
        if j < pos {
            assert(after[i] == before[i] && after[j] == before[j]);
        } else if j == pos {
            assert(after[i] == before[i]);
        } else if i == pos {
            assert(after[j] == before[j - 1]);
            if j - 1 > pos {
                lemma_lex_transitive(x.label@, before[pos].label@, before[j - 1].label@);
            }
        } else if i < pos {
            assert(after[i] == before[i] && after[j] == before[j - 1]);
            lemma_lex_transitive(before[i].label@, x.label@, before[pos].label@);
            if j - 1 > pos {
                lemma_lex_transitive(before[i].label@, before[pos].label@, before[j - 1].label@);
            }
        } else {
            assert(after[i] == before[i - 1] && after[j] == before[j - 1]);
        }
    }
}

fn insert_by_label(points: &mut Vec<DataPoint>, x: DataPoint)
    requires
        sorted_by_label(old(points)@),
    ensures
        sorted_by_label(final(points)@),
        exists|pos: int| 0 <= pos <= old(points)@.len() && final(points)@ == old(points)@.insert(pos, x),
{
    let ghost before = points@;
    let mut pos: usize = 0;
    while pos < points.len() && string_le(&points[pos].label, &x.label)
        invariant
            points@ == before,
            pos <= points@.len(),
            forall|k: int| 0 <= k < pos ==> lex_le((#[trigger] points@[k]).label@, x.label@),
        decreases points@.len() - pos,
    {
        pos = pos + 1;
    }
    proof {
        lemma_insert_point_sorted(before, pos as int, x);
    }
    points.insert(pos, x);
    assert(points@ =~= before.insert(pos as int, x));
}

proof fn lemma_insert_group_sorted(before: Seq<(String, Vec<DataPoint>)>, pos: int, x: (String, Vec<DataPoint>))
    requires
        groups_ok(before),
        0 <= pos <= before.len(),
        forall|k: int| 0 <= k < before.len() ==> (#[trigger] before[k]).0@ != x.0@,
        forall|k: int| 0 <= k < pos ==> lex_le((#[trigger] before[k]).0@, x.0@),
        pos < before.len() ==> !lex_le(before[pos].0@, x.0@),
        sorted_by_label(x.1@),
        x.1@.len() > 0,
        forall|k: int| 0 <= k < x.1@.len() ==> (#[trigger] x.1@[k]).command_params@.len() == 2,
    ensures
        groups_ok(before.insert(pos, x)),
{
    let after = before.insert(pos, x);
    if pos < before.len() {
        lemma_lex_total(before[pos].0@, x.0@);
    }
    assert forall|i: int, j: int| 0 <= i < j < after.len() implies lex_le((#[trigger] after[i]).0@, (#[trigger] after[j]).0@)
        && after[i].0@ != after[j].0@ by {
        if j < pos {
            assert(after[i] == before[i] && after[j] == before[j]);
        } else if j == pos {
            assert(after[i] == before[i]);
        } else if i == pos {
            assert(after[j] == before[j - 1]);
            if j - 1 > pos {
                lemma_lex_transitive(x.0@, before[pos].0@, before[j - 1].0@);
            }
        } else if i < pos {
            assert(after[i] == before[i] && after[j] == before[j - 1]);
            lemma_lex_transitive(before[i].0@, x.0@, before[pos].0@);
            if j - 1 > pos {
                lemma_lex_transitive(before[i].0@, before[pos].0@, before[j - 1].0@);
            }
        } else {
            assert(after[i] == before[i - 1] && after[j] == before[j - 1]);
        }
    }
    assert forall|i: int| 0 <= i < after.len() implies sorted_by_label((#[trigger] after[i]).1@) && after[i].1@.len() > 0 by {
        if i < pos {
            assert(after[i] == before[i]);
        } else if i > pos {
            assert(after[i] == before[i - 1]);
        }
    }
    assert forall|i: int, k: int| 0 <= i < after.len() && 0 <= k < after[i].1@.len() implies (#[trigger] after[i].1@[k]).command_params@.len() == 2 by {
        if i < pos {
            assert(after[i] == before[i]);
        } else if i > pos {
            assert(after[i] == before[i - 1]);
        }
    }
}

pub open spec fn has_group(groups: Seq<(String, Vec<DataPoint>)>, name: Seq<char>) -> bool {
    exists|g: int| 0 <= g < groups.len() && (#[trigger] groups[g]).0@ == name
}

/// Every grouped service point names the compose file `path`.
pub open spec fn all_paths(groups: Seq<(String, Vec<DataPoint>)>, path: Seq<char>) -> bool {
    forall|g: int, k: int|
        0 <= g < groups.len() && 0 <= k < groups[g].1@.len() ==> (#[trigger] groups[g].1@[k]).command_params@[0]@ == path
}

/// Put `point` into the group of `project`, starting the group if there is none.
fn add_to_group(groups: &mut Vec<(String, Vec<DataPoint>)>, project: String, point: DataPoint, path: Ghost<Seq<char>>)
    requires
        groups_ok(old(groups)@),
        point.command_params@.len() == 2,
    ensures
        groups_ok(final(groups)@),
        all_paths(old(groups)@, path@) && point.command_params@[0]@ == path@ ==> all_paths(final(groups)@, path@),
        forall|name: Seq<char>|
            #[trigger] has_group(final(groups)@, name) <==> (has_group(old(groups)@, name) || name == project@),
{
    let ghost the_point = point;
    let ghost project_name = project@;
    let mut i: usize = 0;
    while i < groups.len()
        invariant
            groups@ == old(groups)@,
            groups_ok(old(groups)@),
            point.command_params@.len() == 2,
            i <= groups@.len(),
            the_point == point,
            project_name == project@,
            forall|k: int| 0 <= k < i ==> (#[trigger] groups@[k]).0@ != project@,
        decreases groups@.len() - i,
    {
        if groups[i].0 == project {
            let ghost before = groups@;
            insert_by_label(&mut groups[i].1, point);
            proof {
                assert(forall|k: int| 0 <= k < before.len() && k != i ==> groups@[k] == before[k]);
                assert(groups@[i as int].0 == before[i as int].0);
                let inner = groups@[i as int].1@;
                let pos = choose|pos: int| 0 <= pos <= before[i as int].1@.len() && inner == before[i as int].1@.insert(pos, point);
                assert forall|k: int| 0 <= k < inner.len() implies (#[trigger] inner[k]).command_params@.len() == 2 by {
                    if k < pos {
                        assert(inner[k] == before[i as int].1@[k]);
                    } else if k > pos {
                        assert(inner[k] == before[i as int].1@[k - 1]);
                    }
                }
                assert forall|a: int, b: int| 0 <= a < b < groups@.len() implies lex_le((#[trigger] groups@[a]).0@, (#[trigger] groups@[b]).0@)
                    && groups@[a].0@ != groups@[b].0@ by {
                    assert(groups@[a].0 == before[a].0 && groups@[b].0 == before[b].0);
                }
                assert forall|a: int| 0 <= a < groups@.len() implies sorted_by_label((#[trigger] groups@[a]).1@) && groups@[a].1@.len() > 0 by {
                    if a != i {
                        assert(groups@[a] == before[a]);
                    }
                }
                assert forall|a: int, k: int| 0 <= a < groups@.len() && 0 <= k < groups@[a].1@.len() implies (#[trigger] groups@[a].1@[k]).command_params@.len() == 2 by {
                    if a != i {
                        assert(groups@[a] == before[a]);
                    }
                }
                if all_paths(before, path@) && the_point.command_params@[0]@ == path@ {
                    let inner = groups@[i as int].1@;
                    let pos = choose|pos: int| 0 <= pos <= before[i as int].1@.len() && inner == before[i as int].1@.insert(pos, the_point);
                    assert forall|g: int, k: int| 0 <= g < groups@.len() && 0 <= k < groups@[g].1@.len() implies (#[trigger] groups@[g].1@[k]).command_params@[0]@ == path@ by {
                        if g != i {
                            assert(groups@[g] == before[g]);
                        } else if k < pos {
                            assert(inner[k] == before[i as int].1@[k]);
                        } else if k > pos {
                            assert(inner[k] == before[i as int].1@[k - 1]);
                        }
                    }
                }
            }
            proof {
                assert(groups@[i as int].0@ == project_name);
                assert forall|name: Seq<char>| #[trigger] has_group(groups@, name) <==> (has_group(before, name) || name == project_name) by {
                    if has_group(groups@, name) {
                        let g = choose|g: int| 0 <= g < groups@.len() && (#[trigger] groups@[g]).0@ == name;
                        assert(groups@[g].0 == before[g].0);
                    }
                    if has_group(before, name) {
                        let g = choose|g: int| 0 <= g < before.len() && (#[trigger] before[g]).0@ == name;
                        assert(groups@[g].0 == before[g].0);
                    }
                    if name == project_name {
                        assert(groups@[i as int].0@ == name);
                    }
                }
            }
            return;
        }
        i = i + 1;
    }
    let ghost before = groups@;
    let mut pos: usize = 0;
    while pos < groups.len() && string_le(&groups[pos].0, &project)
        invariant
            groups@ == before,
            pos <= groups@.len(),
            forall|k: int| 0 <= k < pos ==> lex_le((#[trigger] groups@[k]).0@, project@),
        decreases groups@.len() - pos,
    {
        pos = pos + 1;
    }
    let mut points = Vec::new();
    points.push(point);
    let entry = (project, points);
    proof {
        assert(sorted_by_label(entry.1@));
        lemma_insert_group_sorted(before, pos as int, entry);
    }
    let ghost the_entry = entry;
    groups.insert(pos, entry);
    assert(groups@ =~= before.insert(pos as int, the_entry));
    proof {
        assert(the_entry.0@ == project_name);
        assert forall|name: Seq<char>| #[trigger] has_group(groups@, name) <==> (has_group(before, name) || name == project_name) by {
            if has_group(groups@, name) {
                let g = choose|g: int| 0 <= g < groups@.len() && (#[trigger] groups@[g]).0@ == name;
                if g < pos {
                    assert(groups@[g] == before[g]);
                } else if g > pos {
                    assert(groups@[g] == before[g - 1]);
                }
            }
            if has_group(before, name) {
                let g = choose|g: int| 0 <= g < before.len() && (#[trigger] before[g]).0@ == name;
                if g < pos {
                    assert(groups@[g] == before[g]);
                } else {
                    assert(groups@[g + 1] == before[g]);
                }
            }
            if name == project_name {
                assert(groups@[pos as int] == the_entry);
            }
        }
        if all_paths(before, path@) && the_point.command_params@[0]@ == path@ {
            assert(the_entry.1@[0] == the_point);
            assert forall|g: int, k: int| 0 <= g < groups@.len() && 0 <= k < groups@[g].1@.len() implies (#[trigger] groups@[g].1@[k]).command_params@[0]@ == path@ by {
                if g < pos {
                    assert(groups@[g] == before[g]);
                } else if g > pos {
                    assert(groups@[g] == before[g - 1]);
                } else {
                    assert(groups@[g] == the_entry);
                }
            }
        }
    }
}

pub open spec fn rank(c: Criticality) -> nat {
    match c {
        Criticality::Normal => 0,
        Criticality::Info => 1,
        Criticality::Warning => 2,
        Criticality::Error => 3,
        Criticality::Critical => 4,
        Criticality::NoData => 5,
    }
}

fn rank_of(c: Criticality) -> (r: u8)
    ensures
        r as nat == rank(c),
{
    match c {
        Criticality::Normal => 0,
        Criticality::Info => 1,
        Criticality::Warning => 2,
        Criticality::Error => 3,
        Criticality::Critical => 4,
        Criticality::NoData => 5,
    }
}

/// `k` is the last of the most critical points.
pub open spec fn is_most_critical(points: Seq<DataPoint>, k: int) -> bool {
    &&& 0 <= k < points.len()
    &&& forall|j: int| 0 <= j < points.len() ==> rank((#[trigger] points[j]).criticality) <= rank(points[k].criticality)
    &&& forall|j: int| k < j < points.len() ==> rank((#[trigger] points[j]).criticality) < rank(points[k].criticality)
}

/// The point of one project: named after it, with the value and criticality of its most
/// critical service, and its services as children. Services of one project must share a
/// compose file.
pub fn project_point(project: String, points: Vec<DataPoint>) -> (r: Result<DataPoint, LkError>)
    requires
        points@.len() > 0,
        forall|k: int| 0 <= k < points@.len() ==> (#[trigger] points@[k]).command_params@.len() == 2,
    ensures
        r is Ok <==> forall|k: int|
            0 <= k < points@.len() ==> (#[trigger] points@[k]).command_params@[0]@ == points@[0].command_params@[0]@,
        r matches Ok(d) ==> {
            &&& d.label == project
            &&& d.multivalue == points
            &&& strings_view(d.command_params@) == seq![points@[0].command_params@[0]@, project@]
            &&& exists|k: int| is_most_critical(points@, k) && d.criticality == points@[k].criticality && d.value
                == points@[k].value
        },
{
    let compose_file = points[0].command_params[0].clone();
    let mut best: usize = 0;
    let mut k: usize = 0;
    while k < points.len()
        invariant
            points@.len() > 0,
            compose_file@ == points@[0].command_params@[0]@,
            forall|a: int| 0 <= a < points@.len() ==> (#[trigger] points@[a]).command_params@.len() == 2,
            k <= points@.len(),
            best < points@.len(),
            best <= k,
            forall|a: int| 0 <= a < k ==> (#[trigger] points@[a]).command_params@[0]@ == compose_file@,
            forall|a: int| 0 <= a < k ==> rank((#[trigger] points@[a]).criticality) <= rank(points@[best as int].criticality),
            forall|a: int| best < a < k ==> rank((#[trigger] points@[a]).criticality) < rank(points@[best as int].criticality),
        decreases points@.len() - k,
    {
        if points[k].command_params[0] != compose_file {
            return Err(LkError::other_p("Services of one project have different compose files", project.as_str()));
        }
        if rank_of(points[k].criticality) >= rank_of(points[best].criticality) {
            best = k;
        }
        k = k + 1;
    }
    let value = points[best].value.clone();
    let criticality = points[best].criticality;
    let mut point = DataPoint::labeled(project.clone(), value);
    point.criticality = criticality;
    let mut params = Vec::new();
    params.push(compose_file);
    params.push(project);
    assert(strings_view(params@) =~= seq![points@[0].command_params@[0]@, point.label@]);
    point.command_params = params;
    point.multivalue = points;
    assert(is_most_critical(point.multivalue@, best as int));
    Ok(point)
}

/// The directory of the container's compose project: its working directory label, or else
/// `<main_dir>/<project>` when a main directory is configured.
pub open spec fn working_dir_of(c: ContainerDetails, main_dir: Seq<char>) -> Option<Seq<char>> {
    match label_of(c, "com.docker.compose.project.working_dir"@) {
        Some(dir) => Some(dir),
        None => if main_dir.len() > 0 && label_of(c, "com.docker.compose.project"@) is Some {
            Some(main_dir + "/"@ + label_of(c, "com.docker.compose.project"@)->0)
        } else {
            None
        },
    }
}

/// A container of a compose project whose directory is known.
pub open spec fn is_usable(c: ContainerDetails, main_dir: Seq<char>) -> bool {
    &&& label_of(c, "com.docker.compose.config-hash"@) is Some
    &&& label_of(c, "com.docker.compose.project"@) is Some
    &&& working_dir_of(c, main_dir) is Some
}

/// `file` in directory `dir`.
pub open spec fn path_in(dir: Seq<char>, file: Seq<char>) -> Seq<char> {
    if dir.len() == 0 {
        file
    } else if dir.last() == '/' {
        dir + file
    } else {
        dir + "/"@ + file
    }
}

/// The point of one service: its status and criticality, the image as description, and the
/// compose file and service name as command parameters.
pub open spec fn service_point_matches(d: DataPoint, c: ContainerDetails, compose_file: Seq<char>, service: Seq<char>) -> bool {
    &&& d.label@ == service
    &&& d.value == c.status
    &&& d.criticality == c.criticality
    &&& d.description == c.image
    &&& strings_view(d.command_params@) == seq![compose_file, service]
}

fn join_path(dir: &String, file: &String) -> (r: String)
    ensures
        r@ == path_in(dir@, file@),
{
    let text = dir.as_str();
    let n = text.unicode_len();
    if n == 0 {
        return file.clone();
    }
    let mut path = dir.clone();
    if text.get_char(n - 1) != '/' {
        path.append("/");
    }
    path.append(file.as_str());
    path
}

/// The project and point of a container; `None` for a container that is not usable, an error
/// for a usable one without a service label.
pub fn container_entry(c: &ContainerDetails, compose_file_name: &String, main_dir: &String) -> (r: Option<
    Result<(String, DataPoint), LkError>,
>)
    ensures
        r is None <==> !is_usable(*c, main_dir@),
        r matches Some(Err(_)) ==> label_of(*c, "com.docker.compose.service"@) is None,
        r matches Some(Ok((project, d))) ==> {
            &&& is_usable(*c, main_dir@)
            &&& project@ == label_of(*c, "com.docker.compose.project"@)->0
            &&& d.command_params@.len() == 2
            &&& label_of(*c, "com.docker.compose.service"@) matches Some(service) && service_point_matches(
                d,
                *c,
                path_in(working_dir_of(*c, main_dir@)->0, compose_file_name@),
                service,
            )
        },
{
    if get_setting(&c.labels, "com.docker.compose.config-hash").is_none() {
        return None;
    }
    let project = match get_setting(&c.labels, "com.docker.compose.project") {
        Some(project) => project.clone(),
        None => {
            return None;
        },
    };
    let working_dir = match get_setting(&c.labels, "com.docker.compose.project.working_dir") {
        Some(dir) => dir.clone(),
        None => {
            if main_dir.as_str().is_empty() {
                return None;
            }
            let mut dir = main_dir.clone();
            dir.append("/");
            dir.append(project.as_str());
            dir
        },
    };
    let service = match get_setting(&c.labels, "com.docker.compose.service") {
        Some(service) => service.clone(),
        None => {
            return Some(Err(LkError::other_p("Container has no service label", c.id.as_str())));
        },
    };
    let compose_file = join_path(&working_dir, compose_file_name);
    let mut point = DataPoint::labeled(service.clone(), c.status.clone());
    point.criticality = c.criticality;
    point.description = c.image.clone();
    let mut params = Vec::new();
    params.push(compose_file);
    params.push(service);
    point.command_params = params;
    assert(strings_view(point.command_params@) =~= seq![
        path_in(working_dir_of(*c, main_dir@)->0, compose_file_name@),
        label_of(*c, "com.docker.compose.service"@)->0,
    ]);
    Some(Ok((project, point)))
}

/// The point of every compose project, in name order, each with its services in name order.
pub open spec fn projects_ok(d: DataPoint) -> bool {
    &&& forall|i: int, j: int|
        0 <= i < j < d.multivalue@.len() ==> lex_le((#[trigger] d.multivalue@[i]).label@, (#[trigger] d.multivalue@[j]).label@)
            && d.multivalue@[i].label@ != d.multivalue@[j].label@
    &&& forall|i: int|
        0 <= i < d.multivalue@.len() ==> {
            let p = #[trigger] d.multivalue@[i];
            &&& sorted_by_label(p.multivalue@)
            &&& strings_view(p.command_params@).len() == 2
            &&& strings_view(p.command_params@)[1] == p.label@
            &&& exists|k: int| is_most_critical(p.multivalue@, k) && p.criticality == p.multivalue@[k].criticality
                && p.value == p.multivalue@[k].value
        }
}

/// Some usable one of the first `n` containers belongs to project `name`.
pub open spec fn project_of_some(containers: Seq<ContainerDetails>, n: int, main_dir: Seq<char>, name: Seq<char>) -> bool {
    exists|a: int|
        0 <= a < n && is_usable(#[trigger] containers[a], main_dir) && label_of(containers[a], "com.docker.compose.project"@)->0
            == name
}

/// The groups are exactly the projects of the usable ones of the first `n` containers.
#[verifier::opaque]
pub open spec fn groups_are_projects(
    groups: Seq<(String, Vec<DataPoint>)>,
    containers: Seq<ContainerDetails>,
    n: int,
    main_dir: Seq<char>,
) -> bool {
    forall|name: Seq<char>| #[trigger] has_group(groups, name) <==> project_of_some(containers, n, main_dir, name)
}

proof fn lemma_projects_step(
    before: Seq<(String, Vec<DataPoint>)>,
    after: Seq<(String, Vec<DataPoint>)>,
    containers: Seq<ContainerDetails>,
    n: int,
    main_dir: Seq<char>,
    added: Option<Seq<char>>,
)
    requires
        0 <= n < containers.len(),
        groups_are_projects(before, containers, n, main_dir),
        added is None ==> !is_usable(containers[n], main_dir) && after == before,
        added matches Some(p) ==> is_usable(containers[n], main_dir) && p == label_of(containers[n], "com.docker.compose.project"@)->0
            && forall|name: Seq<char>| #[trigger] has_group(after, name) <==> (has_group(before, name) || name == p),
    ensures
        groups_are_projects(after, containers, n + 1, main_dir),
{
    reveal(groups_are_projects);
    assert forall|name: Seq<char>| #[trigger] has_group(after, name) <==> project_of_some(containers, n + 1, main_dir, name) by {
        if project_of_some(containers, n + 1, main_dir, name) {
            let a = choose|a: int|
                0 <= a < n + 1 && is_usable(#[trigger] containers[a], main_dir) && label_of(
                    containers[a],
                    "com.docker.compose.project"@,
                )->0 == name;
            if a < n {
                assert(project_of_some(containers, n, main_dir, name));
            }
        }
        if project_of_some(containers, n, main_dir, name) {
            let a = choose|a: int|
                0 <= a < n && is_usable(#[trigger] containers[a], main_dir) && label_of(
                    containers[a],
                    "com.docker.compose.project"@,
                )->0 == name;
            assert(0 <= a < n + 1);
        }
        if added is Some && name == added->0 {
            assert(is_usable(containers[n], main_dir));
        }
    }
}

/// The projects of a result are exactly the projects of the usable containers.
pub open spec fn projects_from(d: DataPoint, containers: Seq<ContainerDetails>, main_dir: Seq<char>) -> bool {
    forall|name: Seq<char>|
        (exists|i: int| 0 <= i < d.multivalue@.len() && (#[trigger] d.multivalue@[i]).label@ == name) <==> project_of_some(
            containers,
            containers.len() as int,
            main_dir,
            name,
        )
}

/// The compose file of usable container `c`.
pub open spec fn compose_file_of(c: ContainerDetails, file: Seq<char>, main_dir: Seq<char>) -> Seq<char> {
    path_in(working_dir_of(c, main_dir)->0, file)
}

/// Every usable container has a service label, and all of them share one compose file.
pub open spec fn one_compose_file(containers: Seq<ContainerDetails>, file: Seq<char>, main_dir: Seq<char>) -> bool {
    &&& forall|a: int|
        0 <= a < containers.len() && is_usable(#[trigger] containers[a], main_dir) ==> label_of(
            containers[a],
            "com.docker.compose.service"@,
        ) is Some
    &&& forall|a: int, b: int|
        0 <= a < containers.len() && 0 <= b < containers.len() && is_usable(#[trigger] containers[a], main_dir)
            && is_usable(#[trigger] containers[b], main_dir) ==> compose_file_of(containers[a], file, main_dir)
            == compose_file_of(containers[b], file, main_dir)
}

/// Group the usable containers into compose projects.
pub fn compose_projects(containers: &Vec<ContainerDetails>, compose_file_name: &String, main_dir: &String) -> (r: Result<
    DataPoint,
    LkError,
>)
    ensures
        r matches Ok(d) ==> projects_ok(d),
        (exists|i: int|
            0 <= i < containers@.len() && is_usable(#[trigger] containers@[i], main_dir@) && label_of(
                containers@[i],
                "com.docker.compose.service"@,
            ) is None) ==> r is Err,
        one_compose_file(containers@, compose_file_name@, main_dir@) ==> r is Ok,
        r matches Ok(d) ==> projects_from(d, containers@, main_dir@),
{
    let ghost shares = one_compose_file(containers@, compose_file_name@, main_dir@);
    let ghost path: Seq<char> = if exists|a: int| 0 <= a < containers@.len() && is_usable(#[trigger] containers@[a], main_dir@) {
        let a = choose|a: int| 0 <= a < containers@.len() && is_usable(#[trigger] containers@[a], main_dir@);
        compose_file_of(containers@[a], compose_file_name@, main_dir@)
    } else {
        Seq::empty()
    };
    let mut groups: Vec<(String, Vec<DataPoint>)> = Vec::new();
    let mut i: usize = 0;
    assert(groups_are_projects(groups@, containers@, 0, main_dir@)) by {
        reveal(groups_are_projects);
    }
    while i < containers.len()
        invariant
            groups_are_projects(groups@, containers@, i as int, main_dir@),
            i <= containers@.len(),
            groups_ok(groups@),
            shares == one_compose_file(containers@, compose_file_name@, main_dir@),
            shares ==> all_paths(groups@, path),
            path == (if exists|a: int| 0 <= a < containers@.len() && is_usable(#[trigger] containers@[a], main_dir@) {
                compose_file_of(containers@[choose|a: int| 0 <= a < containers@.len() && is_usable(#[trigger] containers@[a], main_dir@)], compose_file_name@, main_dir@)
            } else {
                Seq::<char>::empty()
            }),
            forall|a: int|
                0 <= a < i ==> !(is_usable(#[trigger] containers@[a], main_dir@) && label_of(
                    containers@[a],
                    "com.docker.compose.service"@,
                ) is None),
        decreases containers@.len() - i,
    {
        let ghost before_groups = groups@;
        match container_entry(&containers[i], compose_file_name, main_dir) {
            None => {
                proof {
                    lemma_projects_step(before_groups, groups@, containers@, i as int, main_dir@, None);
                }
            },
            Some(Err(e)) => {
                return Err(e);
            },
            Some(Ok((project, point))) => {
                proof {
                    if shares {
                        let a = choose|a: int| 0 <= a < containers@.len() && is_usable(#[trigger] containers@[a], main_dir@);
                        assert(is_usable(containers@[i as int], main_dir@));
                        assert(point.command_params@[0]@ == path);
                    }
                }
                let ghost pname = project@;
                add_to_group(&mut groups, project, point, Ghost(path));
                proof {
                    lemma_projects_step(before_groups, groups@, containers@, i as int, main_dir@, Some(pname));
                }
            },
        }
        i = i + 1;
    }
    let ghost all = groups@;
    let mut result = DataPoint::empty();
    let mut rest = groups;
    let ghost mut done: int = 0;
    while rest.len() > 0
        invariant
            groups_ok(all),
            0 <= done <= all.len(),
            rest@ == all.subrange(done, all.len() as int),
            shares ==> all_paths(all, path),
            shares == one_compose_file(containers@, compose_file_name@, main_dir@),
            groups_are_projects(all, containers@, containers@.len() as int, main_dir@),
            result.multivalue@.len() == done,
            forall|a: int| 0 <= a < done ==> (#[trigger] result.multivalue@[a]).label@ == all[a].0@,
            forall|a: int|
                0 <= a < done ==> {
                    let p = #[trigger] result.multivalue@[a];
                    &&& sorted_by_label(p.multivalue@)
                    &&& strings_view(p.command_params@).len() == 2
                    &&& strings_view(p.command_params@)[1] == p.label@
                    &&& exists|k: int| is_most_critical(p.multivalue@, k) && p.criticality == p.multivalue@[k].criticality
                        && p.value == p.multivalue@[k].value
                },
        decreases rest@.len(),
    {
        let (project, points) = rest.remove(0);
        assert((project, points) == all[done]);
        proof {
            if shares {
                assert(points@.len() > 0);
                assert forall|k: int| 0 <= k < points@.len() implies (#[trigger] points@[k]).command_params@[0]@
                    == points@[0].command_params@[0]@ by {
                    assert(all[done].1@[k].command_params@[0]@ == path);
                    assert(all[done].1@[0].command_params@[0]@ == path);
                }
            }
        }
        let ghost name = project@;
        match project_point(project, points) {
            Ok(point) => {
                result.multivalue.push(point);
            },
            Err(e) => {
                return Err(e);
            },
        }
        proof {
            done = done + 1;
        }
    }
    assert(all.subrange(done, all.len() as int).len() == 0);
    assert forall|a: int, b: int| 0 <= a < b < result.multivalue@.len() implies lex_le(
        (#[trigger] result.multivalue@[a]).label@,
        (#[trigger] result.multivalue@[b]).label@,
    ) && result.multivalue@[a].label@ != result.multivalue@[b].label@ by {
        assert(result.multivalue@[a].label@ == all[a].0@);
        assert(result.multivalue@[b].label@ == all[b].0@);
    }
    proof {
        reveal(groups_are_projects);
        assert forall|name: Seq<char>|
            (exists|a: int| 0 <= a < result.multivalue@.len() && (#[trigger] result.multivalue@[a]).label@ == name) <==> project_of_some(
                containers@,
                containers@.len() as int,
                main_dir@,
                name,
            ) by {
            if exists|a: int| 0 <= a < result.multivalue@.len() && (#[trigger] result.multivalue@[a]).label@ == name {
                let a = choose|a: int| 0 <= a < result.multivalue@.len() && (#[trigger] result.multivalue@[a]).label@ == name;
                assert(all[a].0@ == name);
                assert(has_group(all, name));
            }
            if project_of_some(containers@, containers@.len() as int, main_dir@, name) {
                assert(has_group(all, name));
                let g = choose|g: int| 0 <= g < all.len() && (#[trigger] all[g]).0@ == name;
                assert(result.multivalue@[g].label@ == name);
            }
        }
    }
    Ok(result)
}

/// Monitors docker-compose projects through the docker API.
#[derive(Clone, Debug)]
pub struct Compose {
    pub compose_file_name: String,
    /// The directory of all projects, for compose versions that leave out the working directory label.
    pub main_dir: String,
}

impl Compose {
    /// The main directory comes from the `main_directory` setting.
    pub fn new(settings: &SettingsMap) -> (r: Compose)
        ensures
            r.compose_file_name@ == "docker-compose.yml"@,
            r.main_dir@ == (if settings_map(settings@).contains_key("main_directory"@) {
                settings_map(settings@)["main_directory"@]
            } else {
                Seq::empty()
            }),
    {
        let main_dir = match get_setting(settings, "main_directory") {
            Some(dir) => dir.clone(),
            None => String::new(),
        };
        Compose { compose_file_name: String::from_str("docker-compose.yml"), main_dir }
    }

    /// Ask the docker socket for every container.
    pub fn connector_message(&self, host: &Host) -> (r: Result<String, LkError>)
        ensures
            r is Ok <==> host.platform.os@ == "linux"@,
            r matches Ok(m) ==> m@ == crate::command_modules::with_sudo(
                "curl --unix-socket /var/run/docker.sock http://localhost/containers/json?all=true"@,
                host.spec_uses_sudo(),
            ),
    {
        proof {
            reveal_strlit("linux");
        }
        if host.platform.os == String::from_str("linux") {
            Ok(crate::command_modules::prefix_sudo(
                String::from_str("curl --unix-socket /var/run/docker.sock http://localhost/containers/json?all=true"),
                host.uses_sudo(),
            ))
        } else {
            Err(LkError::unsupported_platform())
        }
    }

    pub fn projects_point(&self, containers: &Vec<ContainerDetails>) -> (r: Result<DataPoint, LkError>)
        ensures
            r matches Ok(d) ==> projects_ok(d),
            one_compose_file(containers@, self.compose_file_name@, self.main_dir@) ==> r is Ok,
            r matches Ok(d) ==> projects_from(d, containers@, self.main_dir@),
    {
        compose_projects(containers, &self.compose_file_name, &self.main_dir)
    }
}

/// How a container state reads as a criticality: running is normal, created, paused and
/// restarting are warnings, anything else is critical.
pub open spec fn state_criticality_of(state: Seq<char>) -> Criticality {
    if state == "running"@ {
        Criticality::Normal
    } else if state == "created"@ || state == "paused"@ || state == "restarting"@ {
        Criticality::Warning
    } else {
        Criticality::Critical
    }
}

pub fn state_criticality(state: &String) -> (r: Criticality)
    ensures
        r == state_criticality_of(state@),
{
    proof {
        reveal_strlit("running");
        reveal_strlit("created");
        reveal_strlit("paused");
        reveal_strlit("restarting");
    }
    if *state == String::from_str("running") {
        Criticality::Normal
    } else if *state == String::from_str("created") || *state == String::from_str("paused") || *state
        == String::from_str("restarting") {
        Criticality::Warning
    } else {
        Criticality::Critical
    }
}

} // verus!
