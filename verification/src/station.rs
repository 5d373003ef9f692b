//! The station's equipment: pumps (`Trk`) with their nozzles (`Pist`), the
//! tanks that feed the nozzles and the goods (`Tovar`) held in the tanks; and
//! the joining of a nozzle to the goods it dispenses, as the operator screen
//! shows it.

use std::collections::HashMap;
use vstd::prelude::*;

use crate::clock::get_nowtime_str;
use crate::clock::is_time_text;
use crate::models::MyError;
use crate::models::error_line_text;
use crate::models::mysql_source;

verus! {

/// A display colour.
#[derive(Clone, Copy)]
pub struct Color {
    pub r: u8,
    pub g: u8,
    pub b: u8,
}

/// Goods sold at the station.
pub struct Tovar {
    pub id_tovar: i32,
    pub name: String,
    /// The price as decimal text.
    pub price: String,
    pub color: Color,
}

/// A tank, holding one kind of goods.
#[derive(Clone, Copy)]
pub struct Tank {
    pub id_tank: i32,
    pub id_tovar: i32,
}

/// A nozzle of a pump, fed by one tank.
#[derive(Clone, Copy)]
pub struct Pist {
    pub id_pist: i32,
    pub id_tank: i32,
}

/// A pump with its position on the operator screen and its nozzles.
pub struct Trk {
    pub nn: i32,
    pub id_trk: i32,
    pub x_pos: i32,
    pub y_pos: i32,
    pub scale: i32,
    pub pists: Vec<Pist>,
}

/// The size of the operator screen that pump positions refer to.
#[derive(Clone, Copy)]
pub struct ScreenSize {
    pub width: i32,
    pub height: i32,
}

/// A nozzle as the operator screen shows it: with the price, colour and
/// name of the goods it dispenses.
pub struct PistForTemplate {
    pub id_pist: i32,
    pub id_tank: i32,
    pub price: String,
    pub r: u8,
    pub g: u8,
    pub b: u8,
    pub name: String,
}

/// A shown nozzle with its texts as character sequences.
pub struct PistTemplateView {
    pub id_pist: i32,
    pub id_tank: i32,
    pub price: Seq<char>,
    pub r: u8,
    pub g: u8,
    pub b: u8,
    pub name: Seq<char>,
}

impl View for PistForTemplate {
    type V = PistTemplateView;

    open spec fn view(&self) -> PistTemplateView {
        PistTemplateView {
            id_pist: self.id_pist,
            id_tank: self.id_tank,
            price: self.price@,
            r: self.r,
            g: self.g,
            b: self.b,
            name: self.name@,
        }
    }
}

/// A pump as the operator screen shows it: its own fields, with its nozzles
/// joined to their goods. Its position is still in screen units.
pub struct TrkRow {
    pub nn: i32,
    pub id_trk: i32,
    pub x_pos: i32,
    pub y_pos: i32,
    pub scale: i32,
    pub pists: Vec<PistForTemplate>,
}

/// A shown pump carries the fields of the pump it shows.
pub open spec fn row_shows_trk(row: TrkRow, trk: Trk) -> bool {
    &&& row.nn == trk.nn
    &&& row.id_trk == trk.id_trk
    &&& row.x_pos == trk.x_pos
    &&& row.y_pos == trk.y_pos
    &&& row.scale == trk.scale
}

/// The joined nozzles of each shown pump.
pub open spec fn trk_rows_view(rows: Seq<TrkRow>) -> Seq<Seq<PistTemplateView>> {
    rows.map_values(|row: TrkRow| row_view(row.pists@))
}

/// The views of a row of shown nozzles.
pub open spec fn row_view(row: Seq<PistForTemplate>) -> Seq<PistTemplateView> {
    row.map_values(|p: PistForTemplate| p@)
}

/// The index of the last tank with id `id`, or -1 when there is none. Tanks
/// are looked up by id with later entries replacing earlier ones.
pub open spec fn last_tank_index(tanks: Seq<Tank>, id: i32) -> int
    decreases tanks.len(),
{
    if tanks.len() == 0 {
        -1
    } else if tanks.last().id_tank == id {
        tanks.len() - 1
    } else {
        last_tank_index(tanks.drop_last(), id)
    }
}

/// The index of the last goods entry with id `id`, or -1 when there is none.
pub open spec fn last_tovar_index(tovars: Seq<Tovar>, id: i32) -> int
    decreases tovars.len(),
{
    if tovars.len() == 0 {
        -1
    } else if tovars.last().id_tovar == id {
        tovars.len() - 1
    } else {
        last_tovar_index(tovars.drop_last(), id)
    }
}

/// The error detail of a nozzle whose tank is unknown.
pub open spec fn parse_tanks_detail() -> Seq<char> {
    seq!['P', 'A', 'R', 'S', 'E', ' ', 'T', 'A', 'N', 'K', 'S']
}

/// The error detail of a tank whose goods are unknown.
pub open spec fn parse_tovar_detail() -> Seq<char> {
    seq!['P', 'A', 'R', 'S', 'E', ' ', 'T', 'O', 'V', 'A', 'R']
}

/// A nozzle shown with the given goods.
pub open spec fn pist_template(p: Pist, t: Tovar) -> PistTemplateView {
    PistTemplateView {
        id_pist: p.id_pist,
        id_tank: p.id_tank,
        price: t.price@,
        r: t.color.r,
        g: t.color.g,
        b: t.color.b,
        name: t.name@,
    }
}

/// A nozzle joined to its goods through its tank, or the detail of the
/// lookup that failed.
pub open spec fn resolve_pist(tovars: Seq<Tovar>, tanks: Seq<Tank>, p: Pist) -> Result<PistTemplateView, Seq<char>> {
    let ti = last_tank_index(tanks, p.id_tank);
    if ti < 0 {
        Err(parse_tanks_detail())
    } else {
        let vi = last_tovar_index(tovars, tanks[ti].id_tovar);
        if vi < 0 {
            Err(parse_tovar_detail())
        } else {
            Ok(pist_template(p, tovars[vi]))
        }
    }
}

/// The nozzles of a pump joined in order; the first nozzle that fails decides
/// the error.
pub open spec fn resolve_pists(tovars: Seq<Tovar>, tanks: Seq<Tank>, ps: Seq<Pist>) -> Result<Seq<PistTemplateView>, Seq<char>>
    decreases ps.len(),
{
    if ps.len() == 0 {
        Ok(Seq::empty())
    } else {
        match resolve_pists(tovars, tanks, ps.drop_last()) {
            Err(e) => Err(e),
            Ok(v) => match resolve_pist(tovars, tanks, ps.last()) {
                Err(e) => Err(e),
                Ok(x) => Ok(v.push(x)),
            },
        }
    }
}

/// The nozzles of all pumps joined, pump by pump in order; the first nozzle
/// that fails decides the error.
pub open spec fn resolve_trks(tovars: Seq<Tovar>, tanks: Seq<Tank>, trks: Seq<Trk>) -> Result<Seq<Seq<PistTemplateView>>, Seq<char>>
    decreases trks.len(),
{
    if trks.len() == 0 {
        Ok(Seq::empty())
    } else {
        match resolve_trks(tovars, tanks, trks.drop_last()) {
            Err(e) => Err(e),
            Ok(v) => match resolve_pists(tovars, tanks, trks.last().pists@) {
                Err(e) => Err(e),
                Ok(x) => Ok(v.push(x)),
            },
        }
    }
}

/// What `last_tank_index` finds: a tank with that id and none after it.
pub proof fn lemma_last_tank_index(tanks: Seq<Tank>, id: i32)
    ensures
        -1 <= last_tank_index(tanks, id) < tanks.len(),
        last_tank_index(tanks, id) >= 0 ==> tanks[last_tank_index(tanks, id)].id_tank == id,
        forall|j: int| last_tank_index(tanks, id) < j < tanks.len() ==> tanks[j].id_tank != id,
    decreases tanks.len(),
{
    if tanks.len() > 0 && tanks.last().id_tank != id {
        lemma_last_tank_index(tanks.drop_last(), id);
        assert forall|j: int| last_tank_index(tanks, id) < j < tanks.len() implies tanks[j].id_tank != id by {
            if j < tanks.len() - 1 {
                assert(tanks[j] == tanks.drop_last()[j]);
            }
        }
    }
}

/// What `last_tovar_index` finds: goods with that id and none after them.
pub proof fn lemma_last_tovar_index(tovars: Seq<Tovar>, id: i32)
    ensures
        -1 <= last_tovar_index(tovars, id) < tovars.len(),
        last_tovar_index(tovars, id) >= 0 ==> tovars[last_tovar_index(tovars, id)].id_tovar == id,
        forall|j: int| last_tovar_index(tovars, id) < j < tovars.len() ==> tovars[j].id_tovar != id,
    decreases tovars.len(),
{
    if tovars.len() > 0 && tovars.last().id_tovar != id {
        lemma_last_tovar_index(tovars.drop_last(), id);
        assert forall|j: int| last_tovar_index(tovars, id) < j < tovars.len() implies tovars[j].id_tovar != id by {
            if j < tovars.len() - 1 {
                assert(tovars[j] == tovars.drop_last()[j]);
            }
        }
    }
}

/// `m` maps each tank id to the index of the last tank with that id, and
/// holds no other id.
pub open spec fn indexes_tanks(m: Map<i32, usize>, tanks: Seq<Tank>) -> bool {
    &&& forall|id: i32| #[trigger] m.contains_key(id) <==> last_tank_index(tanks, id) >= 0
    &&& forall|id: i32| #[trigger] m.contains_key(id) ==> m[id] == last_tank_index(tanks, id)
}

/// `m` maps each goods id to the index of the last goods entry with that id,
/// and holds no other id.
pub open spec fn indexes_tovars(m: Map<i32, usize>, tovars: Seq<Tovar>) -> bool {
    &&& forall|id: i32| #[trigger] m.contains_key(id) <==> last_tovar_index(tovars, id) >= 0
    &&& forall|id: i32| #[trigger] m.contains_key(id) ==> m[id] == last_tovar_index(tovars, id)
}

/// The tanks by id: each id leads to its last tank in the list, as when
/// later entries replace earlier ones.
pub fn tank_index(tanks: &Vec<Tank>) -> (m: HashMap<i32, usize>)
    ensures
        indexes_tanks(m@, tanks@),
{
    broadcast use vstd::std_specs::hash::group_hash_axioms;
    let mut m: HashMap<i32, usize> = HashMap::new();
    let n = tanks.len();
    for j in 0..n
        invariant
            n == tanks@.len(),
            indexes_tanks(m@, tanks@.take(j as int)),
    {
        assert(tanks@.take(j + 1).drop_last() =~= tanks@.take(j as int));
        assert(tanks@.take(j + 1).last() == tanks@[j as int]);
        m.insert(tanks[j].id_tank, j);
    }
    assert(tanks@.take(n as int) =~= tanks@);
    m
}

/// The goods by id: each id leads to its last entry in the list, as when
/// later entries replace earlier ones.
pub fn tovar_index(tovars: &Vec<Tovar>) -> (m: HashMap<i32, usize>)
    ensures
        indexes_tovars(m@, tovars@),
{
    broadcast use vstd::std_specs::hash::group_hash_axioms;
    let mut m: HashMap<i32, usize> = HashMap::new();
    let n = tovars.len();
    for j in 0..n
        invariant
            n == tovars@.len(),
            indexes_tovars(m@, tovars@.take(j as int)),
    {
        assert(tovars@.take(j + 1).drop_last() =~= tovars@.take(j as int));
        assert(tovars@.take(j + 1).last() == tovars@[j as int]);
        m.insert(tovars[j].id_tovar, j);
    }
    assert(tovars@.take(n as int) =~= tovars@);
    m
}

/// Joins one nozzle to the goods it dispenses.
pub fn pist_for_template(
    tovars: &Vec<Tovar>,
    tovar_map: &HashMap<i32, usize>,
    tanks: &Vec<Tank>,
    tank_map: &HashMap<i32, usize>,
    pist: &Pist,
) -> (r: Result<PistForTemplate, &'static str>)
    requires
        indexes_tovars(tovar_map@, tovars@),
        indexes_tanks(tank_map@, tanks@),
    ensures
        r matches Ok(p) ==> resolve_pist(tovars@, tanks@, *pist) == Ok::<PistTemplateView, Seq<char>>(p@),
        r matches Err(d) ==> resolve_pist(tovars@, tanks@, *pist) == Err::<PistTemplateView, Seq<char>>(d@),
        r matches Ok(p) ==> {
            let ti = last_tank_index(tanks@, pist.id_tank);
            let vi = last_tovar_index(tovars@, tanks@[ti].id_tovar);
            &&& 0 <= ti < tanks@.len()
            &&& 0 <= vi < tovars@.len()
            &&& p.id_pist == pist.id_pist
            &&& p.id_tank == pist.id_tank
            &&& p.price@ == tovars@[vi].price@
            &&& p.name@ == tovars@[vi].name@
            &&& p.r == tovars@[vi].color.r
            &&& p.g == tovars@[vi].color.g
            &&& p.b == tovars@[vi].color.b
        },
{
    broadcast use vstd::std_specs::hash::group_hash_axioms;
    proof {
        lemma_last_tank_index(tanks@, pist.id_tank);
    }
    match tank_map.get(&pist.id_tank) {
        None => {
            proof {
                reveal_strlit("PARSE TANKS");
                assert("PARSE TANKS"@ =~= parse_tanks_detail());
            }
            Err("PARSE TANKS")
        },
        Some(ti) => {
            let tank = tanks[*ti];
            proof {
                lemma_last_tovar_index(tovars@, tank.id_tovar);
            }
            match tovar_map.get(&tank.id_tovar) {
                None => {
                    proof {
                        reveal_strlit("PARSE TOVAR");
                        assert("PARSE TOVAR"@ =~= parse_tovar_detail());
                    }
                    Err("PARSE TOVAR")
                },
                Some(vi) => {
                    let tovar = &tovars[*vi];
                    Ok(PistForTemplate {
                        id_pist: pist.id_pist,
                        id_tank: pist.id_tank,
                        price: tovar.price.clone(),
                        r: tovar.color.r,
                        g: tovar.color.g,
                        b: tovar.color.b,
                        name: tovar.name.clone(),
                    })
                },
            }
        },
    }
}

/// Joins the nozzles of one pump, in order.
pub fn pists_for_template(
    tovars: &Vec<Tovar>,
    tovar_map: &HashMap<i32, usize>,
    tanks: &Vec<Tank>,
    tank_map: &HashMap<i32, usize>,
    pists: &Vec<Pist>,
) -> (r: Result<Vec<PistForTemplate>, &'static str>)
    requires
        indexes_tovars(tovar_map@, tovars@),
        indexes_tanks(tank_map@, tanks@),
    ensures
        r matches Ok(row) ==> resolve_pists(tovars@, tanks@, pists@) == Ok::<Seq<PistTemplateView>, Seq<char>>(row_view(row@)),
        r matches Err(d) ==> resolve_pists(tovars@, tanks@, pists@) == Err::<Seq<PistTemplateView>, Seq<char>>(d@),
{
    let mut row: Vec<PistForTemplate> = Vec::new();
    let n = pists.len();
    assert(pists@.take(0) =~= Seq::<Pist>::empty());
    assert(row_view(row@) =~= Seq::<PistTemplateView>::empty());
    for j in 0..n
        invariant
            n == pists@.len(),
            indexes_tovars(tovar_map@, tovars@),
            indexes_tanks(tank_map@, tanks@),
            resolve_pists(tovars@, tanks@, pists@.take(j as int)) == Ok::<Seq<PistTemplateView>, Seq<char>>(row_view(row@)),
    {
        let ghost before = row@;
        assert(pists@.take(j + 1).drop_last() =~= pists@.take(j as int));
        assert(pists@.take(j + 1).last() == pists@[j as int]);
        match pist_for_template(tovars, tovar_map, tanks, tank_map, &pists[j]) {
            Ok(p) => {
                row.push(p);
                assert(row_view(row@) =~= row_view(before).push(p@));
            },
            Err(d) => {
                proof { lemma_resolve_pists_err_prefix(tovars@, tanks@, pists@, j as int + 1, d@); }
                return Err(d);
            },
        }
    }
    assert(pists@.take(n as int) =~= pists@);
    Ok(row)
}

/// An error in the nozzles before position `k` is the error of the whole row.
proof fn lemma_resolve_pists_err_prefix(tovars: Seq<Tovar>, tanks: Seq<Tank>, ps: Seq<Pist>, k: int, e: Seq<char>)
    requires
        0 <= k <= ps.len(),
        resolve_pists(tovars, tanks, ps.take(k)) == Err::<Seq<PistTemplateView>, Seq<char>>(e),
    ensures
        resolve_pists(tovars, tanks, ps) == Err::<Seq<PistTemplateView>, Seq<char>>(e),
    decreases ps.len() - k,
{
    if k == ps.len() {
        assert(ps.take(k) =~= ps);
    } else {
        assert(ps.take(k + 1).drop_last() =~= ps.take(k));
        lemma_resolve_pists_err_prefix(tovars, tanks, ps, k + 1, e);
    }
}

/// An error in the pumps before position `k` is the error of the whole list.
proof fn lemma_resolve_trks_err_prefix(tovars: Seq<Tovar>, tanks: Seq<Tank>, trks: Seq<Trk>, k: int, e: Seq<char>)
    requires
        0 <= k <= trks.len(),
        resolve_trks(tovars, tanks, trks.take(k)) == Err::<Seq<Seq<PistTemplateView>>, Seq<char>>(e),
    ensures
        resolve_trks(tovars, tanks, trks) == Err::<Seq<Seq<PistTemplateView>>, Seq<char>>(e),
    decreases trks.len() - k,
{
    if k == trks.len() {
        assert(trks.take(k) =~= trks);
    } else {
        assert(trks.take(k + 1).drop_last() =~= trks.take(k));
        lemma_resolve_trks_err_prefix(tovars, tanks, trks, k + 1, e);
    }
}

/// The pumps as the operator screen shows them, each with its nozzles joined
/// to their goods, in order. The first nozzle whose tank or goods is unknown
/// gives the error detail.
pub fn resolve_trks_for_template(tovars: &Vec<Tovar>, tanks: &Vec<Tank>, trks: &Vec<Trk>) -> (r: Result<Vec<TrkRow>, &'static str>)
    ensures
        r matches Ok(rows) ==> {
            &&& rows@.len() == trks@.len()
            &&& forall|i: int| 0 <= i < rows@.len() ==> row_shows_trk(#[trigger] rows@[i], trks@[i])
            &&& resolve_trks(tovars@, tanks@, trks@) == Ok::<Seq<Seq<PistTemplateView>>, Seq<char>>(trk_rows_view(rows@))
        },
        r matches Err(d) ==> resolve_trks(tovars@, tanks@, trks@) == Err::<Seq<Seq<PistTemplateView>>, Seq<char>>(d@),
{
    let tovar_map = tovar_index(tovars);
    let tank_map = tank_index(tanks);
    let mut rows: Vec<TrkRow> = Vec::new();
    let n = trks.len();
    assert(trks@.take(0) =~= Seq::<Trk>::empty());
    assert(trk_rows_view(rows@) =~= Seq::<Seq<PistTemplateView>>::empty());
    for j in 0..n
        invariant
            n == trks@.len(),
            indexes_tovars(tovar_map@, tovars@),
            indexes_tanks(tank_map@, tanks@),
            rows@.len() == j,
            forall|i: int| 0 <= i < j ==> row_shows_trk(#[trigger] rows@[i], trks@[i]),
            resolve_trks(tovars@, tanks@, trks@.take(j as int)) == Ok::<Seq<Seq<PistTemplateView>>, Seq<char>>(trk_rows_view(rows@)),
    {
        let ghost before = rows@;
        assert(trks@.take(j + 1).drop_last() =~= trks@.take(j as int));
        assert(trks@.take(j + 1).last() == trks@[j as int]);
        let trk = &trks[j];
        match pists_for_template(tovars, &tovar_map, tanks, &tank_map, &trk.pists) {
            Ok(pists) => {
                let row = TrkRow {
                    nn: trk.nn,
                    id_trk: trk.id_trk,
                    x_pos: trk.x_pos,
                    y_pos: trk.y_pos,
                    scale: trk.scale,
                    pists,
                };
                rows.push(row);
                assert(trk_rows_view(rows@) =~= trk_rows_view(before).push(row_view(rows@[j as int].pists@)));
            },
            Err(d) => {
                proof { lemma_resolve_trks_err_prefix(tovars@, tanks@, trks@, j as int + 1, d@); }
                return Err(d);
            },
        }
    }
    assert(trks@.take(n as int) =~= trks@);
    Ok(rows)
}

/// The pumps as the operator screen shows them, each with its nozzles joined
/// to their goods, in order. When a nozzle's tank or a tank's goods is
/// unknown, the MySQL error for the first such nozzle is returned, stamped
/// with the current time.
pub fn get_trks_for_template(tovars: &Vec<Tovar>, tanks: &Vec<Tank>, trks: &Vec<Trk>) -> (r: Result<Vec<TrkRow>, MyError>)
    ensures
        r matches Ok(rows) ==> {
            &&& rows@.len() == trks@.len()
            &&& forall|i: int| 0 <= i < rows@.len() ==> row_shows_trk(#[trigger] rows@[i], trks@[i])
            &&& resolve_trks(tovars@, tanks@, trks@) == Ok::<Seq<Seq<PistTemplateView>>, Seq<char>>(trk_rows_view(rows@))
        },
        r matches Err(e) ==> exists|now: Seq<char>, d: Seq<char>|
            is_time_text(now)
            && resolve_trks(tovars@, tanks@, trks@) == Err::<Seq<Seq<PistTemplateView>>, Seq<char>>(d)
            && e.message() == #[trigger] error_line_text(mysql_source(), now, d),
{
    match resolve_trks_for_template(tovars, tanks, trks) {
        Ok(rows) => Ok(rows),
        Err(d) => {
            let now = get_nowtime_str();
            let e = MyError::mysql(now.as_str(), d);
            assert(e.message() == error_line_text(mysql_source(), now@, d@));
            Err(e)
        },
    }
}

} // verus!
