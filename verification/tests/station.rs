use fuel_station::objects_of_controllers::{combine_write_results, AllObject_ID, EquipmentPart};
use fuel_station::models::MyError;
use fuel_station::station::{
    get_trks_for_template, pist_for_template, resolve_trks_for_template, tank_index, tovar_index, Color, Pist, Tank, Tovar, Trk,
};

fn tovar(id: i32, name: &str, price: &str, r: u8) -> Tovar {
    Tovar { id_tovar: id, name: name.to_string(), price: price.to_string(), color: Color { r, g: 10, b: 20 } }
}

fn trk(id: i32, pists: Vec<Pist>) -> Trk {
    Trk { nn: id, id_trk: id, x_pos: 100, y_pos: 50, scale: 1, pists }
}

fn goods() -> Vec<Tovar> {
    vec![tovar(1, "A-95", "52.99", 200), tovar(2, "Diesel", "49.50", 30)]
}

fn tanks() -> Vec<Tank> {
    vec![Tank { id_tank: 10, id_tovar: 1 }, Tank { id_tank: 11, id_tovar: 2 }]
}

#[test]
fn nozzles_show_their_goods() {
    let trks = vec![
        trk(1, vec![Pist { id_pist: 100, id_tank: 10 }, Pist { id_pist: 101, id_tank: 11 }]),
        trk(2, vec![]),
        trk(3, vec![Pist { id_pist: 300, id_tank: 11 }]),
    ];
    let rows = resolve_trks_for_template(&goods(), &tanks(), &trks).unwrap();
    assert_eq!(rows.len(), 3);
    assert_eq!(rows[0].pists.len(), 2);
    assert_eq!(rows[1].pists.len(), 0);
    assert_eq!(rows[2].id_trk, 3);
    assert_eq!(rows[2].nn, 3);
    assert_eq!(rows[0].x_pos, 100);
    assert_eq!(rows[0].y_pos, 50);
    assert_eq!(rows[0].scale, 1);
    assert_eq!(rows[0].pists[0].name, "A-95");
    assert_eq!(rows[0].pists[0].price, "52.99");
    assert_eq!(rows[0].pists[0].r, 200);
    assert_eq!(rows[0].pists[0].id_pist, 100);
    assert_eq!(rows[0].pists[0].id_tank, 10);
    assert_eq!(rows[0].pists[1].name, "Diesel");
    assert_eq!(rows[2].pists[0].id_pist, 300);
    assert_eq!(rows[2].pists[0].price, "49.50");
}

#[test]
fn later_entries_replace_earlier_ones() {
    let tovars = vec![tovar(1, "old", "1", 0), tovar(1, "new", "2", 0)];
    let tanks = vec![Tank { id_tank: 5, id_tovar: 9 }, Tank { id_tank: 5, id_tovar: 1 }];
    let p = join_one(&tovars, &tanks, &Pist { id_pist: 1, id_tank: 5 }).unwrap();
    assert_eq!(p.name, "new");
    assert_eq!(p.price, "2");
}

#[test]
fn unknown_tank_and_unknown_goods() {
    assert_eq!(join_one(&goods(), &tanks(), &Pist { id_pist: 1, id_tank: 99 }).err(), Some("PARSE TANKS"));
    let tanks = vec![Tank { id_tank: 10, id_tovar: 7 }];
    assert_eq!(join_one(&goods(), &tanks, &Pist { id_pist: 1, id_tank: 10 }).err(), Some("PARSE TOVAR"));
}

#[test]
fn first_failing_nozzle_decides() {
    let tanks = vec![Tank { id_tank: 10, id_tovar: 7 }];
    let trks = vec![
        trk(1, vec![Pist { id_pist: 1, id_tank: 10 }]),
        trk(2, vec![Pist { id_pist: 2, id_tank: 99 }]),
    ];
    assert_eq!(resolve_trks_for_template(&goods(), &tanks, &trks).err(), Some("PARSE TOVAR"));
    let trks = vec![
        trk(1, vec![Pist { id_pist: 2, id_tank: 99 }, Pist { id_pist: 1, id_tank: 10 }]),
    ];
    assert_eq!(resolve_trks_for_template(&goods(), &tanks, &trks).err(), Some("PARSE TANKS"));
}

#[test]
fn no_pumps_give_no_rows() {
    assert_eq!(resolve_trks_for_template(&vec![], &vec![], &vec![]).unwrap().len(), 0);
}

#[test]
fn join_error_is_a_stamped_mysql_error() {
    let trks = vec![trk(1, vec![Pist { id_pist: 1, id_tank: 99 }])];
    match get_trks_for_template(&goods(), &tanks(), &trks) {
        Err(MyError::DatabaseError(m)) => {
            assert!(m.starts_with("MYSQL|| "));
            assert!(m.ends_with(" error: PARSE TANKS\n"));
            assert_eq!(m.len(), "MYSQL|| ".len() + 16 + " error: PARSE TANKS\n".len());
        },
        Ok(_) => panic!("the nozzle's tank is unknown"),
    }
    let ok = get_trks_for_template(&goods(), &tanks(), &vec![trk(1, vec![Pist { id_pist: 1, id_tank: 11 }])]);
    let rows = match ok {
        Ok(rows) => rows,
        Err(_) => panic!("every nozzle joins"),
    };
    assert_eq!(rows.len(), 1);
    assert_eq!(rows[0].pists[0].name, "Diesel");
}


#[test]
fn write_results_first_error_wins() {
    let results = vec![
        Ok(true),
        Err(MyError::DatabaseError("first\n".to_string())),
        Err(MyError::DatabaseError("second\n".to_string())),
    ];
    match combine_write_results(&results) {
        Err(MyError::DatabaseError(m)) => assert_eq!(m, "first\n"),
        Ok(_) => panic!("a write failed"),
    }
    assert_eq!(combine_write_results(&vec![Ok(true), Ok(false)]).ok(), Some(true));
    assert_eq!(combine_write_results(&vec![]).ok(), Some(true));
}

#[test]
fn delete_request_acts_on_pumps_only() {
    let req = AllObject_ID { trks: Some(vec![1, 2]), tovars: Some(vec![3]), tanks: Some(vec![4]) };
    assert_eq!(req.parts_to_delete(), vec![EquipmentPart::Trks]);
    let req = AllObject_ID { trks: None, tovars: Some(vec![3]), tanks: None };
    assert!(req.parts_to_delete().is_empty());
}

fn join_one(tovars: &Vec<Tovar>, tanks: &Vec<Tank>, p: &Pist) -> Result<fuel_station::station::PistForTemplate, &'static str> {
    pist_for_template(tovars, &tovar_index(tovars), tanks, &tank_index(tanks), p)
}

#[test]
fn id_indexes_keep_the_last_entry() {
    let tanks = vec![Tank { id_tank: 5, id_tovar: 9 }, Tank { id_tank: 6, id_tovar: 1 }, Tank { id_tank: 5, id_tovar: 1 }];
    let m = tank_index(&tanks);
    assert_eq!(m.len(), 2);
    assert_eq!(m.get(&5), Some(&2));
    assert_eq!(m.get(&6), Some(&1));
    assert_eq!(m.get(&7), None);
    let g = tovar_index(&goods());
    assert_eq!(g.get(&2), Some(&1));
}
