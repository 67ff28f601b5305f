//! What the owner puts into the catalogue, and who may.

use servepoint::commissioning::{
    self, BaseUnit, Destination, Measure, NewProduct, NewSaleItem, NewStaff, ProductUpdate,
    RecipeLine, SaleItemUpdate,
};
use servepoint::ledger::AuditEntry;
use servepoint::money::{Milli, Money};
use servepoint::repo::{catalogue, staff, RepoError};
use servepoint::store::Store;

fn staff_member(db: &mut Store, code: &str, name: &str, role: &str) -> i64 {
    let role = staff::Role::parse(role).unwrap();
    let pin = if role.authenticates() {
        Some(("salt", "hash"))
    } else {
        None
    };
    staff::add(db, code, name, role, pin, NOW).unwrap()
}

/// Leaves no number for another line of the audit log.
fn exhaust_audit(db: &mut Store) {
    db.audit.push(AuditEntry {
        sequence_no: i64::MAX,
        action: "FULL".to_owned(),
        entity_type: "log".to_owned(),
        entity_id: None,
        old_value: None,
        new_value: None,
        staff_id: None,
        shift_id: None,
        created_at: NOW,
    });
}

const NOW: i64 = 1_786_500_000_000;

struct Venue {
    db: Store,
    owner: i64,
    cashier: i64,
}

fn venue() -> Venue {
    let mut db = Store::new();
    let owner = staff_member(&mut db, "OWN-1", "Selam", "OWNER");
    let cashier = staff_member(&mut db, "CSH-1", "Abel", "CASHIER");
    Venue { db, owner, cashier }
}

fn beer() -> NewProduct<'static> {
    NewProduct {
        sale_price: None,
        content_measure: Measure::Whole,
        content_per_unit: Milli::zero(),
        name: "Beer",
        category: "Bottles",
        base_unit: BaseUnit::Bottle,
        base_units_per_pack: Milli::one(),
        units_per_purchase_pack: 24,
        low_stock_threshold: Milli::from_units(6),
        tracks_inventory: true,
        destination: Destination::Bar,
    }
}

#[test]
fn only_an_active_owner_can_create_master_data_and_every_change_is_audited() {
    let mut venue = venue();

    let denied =
        commissioning::create_product(&mut venue.db, venue.cashier, &beer(), NOW).unwrap_err();
    assert!(denied.message().contains("active owner"), "got: {denied:?}");
    assert_eq!(venue.db.products.len(), 0);

    let product =
        commissioning::create_product(&mut venue.db, venue.owner, &beer(), NOW).unwrap();
    assert_eq!(product.entity_id, 1);
    assert_eq!(product.audit_sequence, 1);
    assert_eq!(venue.db.audit[0].action, "PRODUCT_CREATED");
}

/// The whole point of the one-step path: a club adds a bottle and it is on the
/// till, with no separate menu entry, recipe or price to remember. All four
/// rows are written together, so there is no state where the screen shows a
/// finished item that the till refuses.
#[test]
fn a_priced_product_is_sellable_the_moment_it_is_created() {
    let mut venue = venue();
    let priced = NewProduct {
        sale_price: Some(Money::from_minor(12_000)),
        ..beer()
    };

    let product =
        commissioning::create_product(&mut venue.db, venue.owner, &priced, NOW).unwrap();

    let menu = catalogue::menu(&venue.db);
    assert_eq!(menu.len(), 1);
    assert_eq!(menu[0].name, "Beer");
    assert_eq!(menu[0].price, Money::from_minor(12_000));

    // One bottle off the shelf per sale, written as an ordinary recipe so that
    // availability, issue slips and corrections all keep working unchanged.
    let drawn = catalogue::expand(&venue.db, menu[0].recipe_id, Milli::one()).unwrap();
    assert_eq!(drawn.len(), 1);
    assert_eq!(drawn[0].product_id, product.entity_id);
    assert_eq!(drawn[0].quantity, Milli::one());

    // History cannot tell whether one screen or three was used.
    let actions: Vec<&str> = venue
        .db
        .audit
        .iter()
        .map(|entry| entry.action.as_str())
        .collect();
    assert_eq!(
        actions,
        [
            "PRODUCT_CREATED",
            "SALE_ITEM_CREATED",
            "RECIPE_CHANGED",
            "PRICE_CHANGED"
        ]
    );
}

/// Stock only: a mixer poured into other drinks and never ordered by name.
#[test]
fn a_product_with_no_price_stays_off_the_menu_until_it_is_asked_for() {
    let mut venue = venue();
    let product =
        commissioning::create_product(&mut venue.db, venue.owner, &beer(), NOW).unwrap();
    assert!(catalogue::menu(&venue.db).is_empty());

    commissioning::sell_product(
        &mut venue.db,
        venue.owner,
        product.entity_id,
        Money::from_minor(12_000),
        NOW + 1,
    )
    .unwrap();

    let menu = catalogue::menu(&venue.db);
    assert_eq!(menu.len(), 1);
    assert_eq!(menu[0].price, Money::from_minor(12_000));
}

/// A club pours by measure. The owner writes "30ml of whiskey"; the ledger
/// holds the fraction of a bottle that is, so nothing downstream has to learn
/// a second unit.
#[test]
fn a_recipe_written_in_millilitres_is_stored_as_a_fraction_of_a_bottle() {
    let mut venue = venue();
    let whiskey = commissioning::create_product(
        &mut venue.db,
        venue.owner,
        &NewProduct {
            name: "Whiskey",
            content_measure: Measure::Ml,
            content_per_unit: Milli::from_units(750),
            ..beer()
        },
        NOW,
    )
    .unwrap();
    let beer_product =
        commissioning::create_product(&mut venue.db, venue.owner, &beer(), NOW).unwrap();
    let item = commissioning::create_sale_item(
        &mut venue.db,
        venue.owner,
        &NewSaleItem {
            name: "Boilermaker",
            category: "Cocktails",
        },
        NOW,
    )
    .unwrap();

    commissioning::revise_recipe(
        &mut venue.db,
        venue.owner,
        item.entity_id,
        &[
            // One shot of a 750ml bottle.
            RecipeLine {
                product_id: whiskey.entity_id,
                quantity: Milli::from_units(30),
                in_measure: true,
            },
            // A whole bottle of beer, in counted units as before.
            RecipeLine {
                product_id: beer_product.entity_id,
                quantity: Milli::one(),
                in_measure: false,
            },
        ],
        NOW + 1,
    )
    .unwrap();

    let stored: Vec<i64> = venue
        .db
        .recipe_lines
        .iter()
        .map(|line| line.quantity.thousandths())
        .collect();
    // 30/750 is 0.040 of a bottle; the beer is one whole bottle.
    assert_eq!(stored, [40, 1_000]);
}

/// A pour so small it would round to nothing must be refused rather than
/// silently drawing zero stock every time the drink is sold.
#[test]
fn a_measure_too_small_to_draw_anything_is_refused() {
    let mut venue = venue();
    let product = commissioning::create_product(
        &mut venue.db,
        venue.owner,
        &NewProduct {
            content_measure: Measure::Ml,
            content_per_unit: Milli::from_units(750),
            ..beer()
        },
        NOW,
    )
    .unwrap();
    let item = commissioning::create_sale_item(
        &mut venue.db,
        venue.owner,
        &NewSaleItem {
            name: "Bitters",
            category: "Cocktails",
        },
        NOW,
    )
    .unwrap();

    let refused = commissioning::revise_recipe(
        &mut venue.db,
        venue.owner,
        item.entity_id,
        &[RecipeLine {
            product_id: product.entity_id,
            // Under a thousandth of a 750ml bottle.
            quantity: Milli::from_thousandths(300),
            in_measure: true,
        }],
        NOW + 1,
    )
    .unwrap_err();
    assert!(refused.message().contains("too small"), "got: {refused:?}");
}

#[test]
fn staff_pins_are_hashed_but_never_written_to_the_audit_log() {
    let mut venue = venue();
    let (salt, hash) = ("a-pinch-of-salt", "what-the-pin-hashes-to");

    let created = commissioning::create_staff(
        &mut venue.db,
        venue.owner,
        &NewStaff {
            name: "Meron",
            role: staff::Role::Cashier,
            pin: Some((salt, hash)),
        },
        NOW,
    )
    .unwrap();

    let kept = venue
        .db
        .staff
        .iter()
        .find(|row| row.person.id == created.entity_id)
        .unwrap();
    assert_eq!(kept.pin_salt.as_deref(), Some(salt));
    assert_eq!(kept.pin_hash.as_deref(), Some(hash));
    let entry = venue
        .db
        .audit
        .iter()
        .find(|entry| entry.action == "STAFF_CREATED")
        .unwrap();
    let audit = entry.new_value.as_deref().unwrap_or("");
    assert!(!audit.contains(salt));
    assert!(!audit.contains(hash));
}

#[test]
fn a_sale_item_becomes_sellable_only_after_recipe_and_price_versions_exist() {
    let mut venue = venue();
    let product =
        commissioning::create_product(&mut venue.db, venue.owner, &beer(), NOW).unwrap();
    let item = commissioning::create_sale_item(
        &mut venue.db,
        venue.owner,
        &NewSaleItem {
            name: "Beer",
            category: "Bottles",
        },
        NOW + 1,
    )
    .unwrap();
    assert!(catalogue::menu(&venue.db).is_empty());

    commissioning::revise_recipe(
        &mut venue.db,
        venue.owner,
        item.entity_id,
        &[RecipeLine {
            product_id: product.entity_id,
            quantity: Milli::one(),
            in_measure: false,
        }],
        NOW + 2,
    )
    .unwrap();
    assert!(catalogue::menu(&venue.db).is_empty());

    commissioning::reprice(
        &mut venue.db,
        venue.owner,
        item.entity_id,
        Money::from_minor(5_000),
        NOW + 3,
    )
    .unwrap();

    let menu = catalogue::menu(&venue.db);
    assert_eq!(menu.len(), 1);
    assert_eq!(menu[0].price, Money::from_minor(5_000));
    let actions: Vec<&str> = venue
        .db
        .audit
        .iter()
        .map(|entry| entry.action.as_str())
        .collect();
    assert_eq!(
        actions,
        [
            "PRODUCT_CREATED",
            "SALE_ITEM_CREATED",
            "RECIPE_CHANGED",
            "PRICE_CHANGED"
        ]
    );
}

#[test]
fn an_audit_failure_rolls_the_master_change_back() {
    let mut venue = venue();
    exhaust_audit(&mut venue.db);

    let failure =
        commissioning::create_product(&mut venue.db, venue.owner, &beer(), NOW).unwrap_err();
    assert!(
        matches!(&failure, RepoError::Sqlite(_)),
        "got: {failure:?}"
    );
    assert_eq!(venue.db.products.len(), 0);
    assert_eq!(venue.db.audit.len(), 1);
}

#[test]
fn a_failed_recipe_audit_leaves_the_previous_version_open() {
    let mut venue = venue();
    let product =
        commissioning::create_product(&mut venue.db, venue.owner, &beer(), NOW).unwrap();
    let item = commissioning::create_sale_item(
        &mut venue.db,
        venue.owner,
        &NewSaleItem {
            name: "Beer",
            category: "Bottles",
        },
        NOW,
    )
    .unwrap();
    let first = commissioning::revise_recipe(
        &mut venue.db,
        venue.owner,
        item.entity_id,
        &[RecipeLine {
            product_id: product.entity_id,
            quantity: Milli::one(),
            in_measure: false,
        }],
        NOW,
    )
    .unwrap();
    exhaust_audit(&mut venue.db);

    commissioning::revise_recipe(
        &mut venue.db,
        venue.owner,
        item.entity_id,
        &[RecipeLine {
            product_id: product.entity_id,
            quantity: Milli::from_units(2),
            in_measure: false,
        }],
        NOW + 1,
    )
    .unwrap_err();

    let versions: Vec<&catalogue::Recipe> = venue
        .db
        .recipes
        .iter()
        .filter(|recipe| recipe.sale_item_id == item.entity_id)
        .collect();
    assert_eq!(versions.len(), 1);
    assert_eq!(versions[0].id, first.entity_id);
    assert_eq!(versions[0].effective_to, None);
}

#[test]
fn owner_updates_to_staff_products_and_sale_items_store_before_and_after_facts() {
    let mut venue = venue();
    let waiter = commissioning::create_staff(
        &mut venue.db,
        venue.owner,
        &NewStaff {
            name: "Sara",
            role: staff::Role::Waiter,
            pin: None,
        },
        NOW,
    )
    .unwrap();
    commissioning::set_staff_active(
        &mut venue.db,
        venue.owner,
        waiter.entity_id,
        false,
        NOW + 1,
    )
    .unwrap();
    assert!(!staff::find(&venue.db, waiter.entity_id).unwrap().active);

    let product =
        commissioning::create_product(&mut venue.db, venue.owner, &beer(), NOW).unwrap();
    commissioning::update_product(
        &mut venue.db,
        venue.owner,
        product.entity_id,
        &ProductUpdate {
            content_measure: Measure::Whole,
            content_per_unit: Milli::zero(),
            name: "Amber Beer",
            category: "Beer",
            base_unit: BaseUnit::Bottle,
            base_units_per_pack: Milli::one(),
            units_per_purchase_pack: 24,
            low_stock_threshold: Milli::from_units(12),
            tracks_inventory: true,
            destination: Destination::Bar,
            active: true,
        },
        NOW + 2,
    )
    .unwrap();
    assert_eq!(
        catalogue::product(&venue.db, product.entity_id)
            .unwrap()
            .name,
        "Amber Beer"
    );

    let item = commissioning::create_sale_item(
        &mut venue.db,
        venue.owner,
        &NewSaleItem {
            name: "Beer",
            category: "Bottles",
        },
        NOW + 3,
    )
    .unwrap();
    commissioning::update_sale_item(
        &mut venue.db,
        venue.owner,
        item.entity_id,
        &SaleItemUpdate {
            name: "Amber Beer",
            category: "Beer",
            active: false,
        },
        NOW + 4,
    )
    .unwrap();
    assert!(
        !catalogue::sale_item(&venue.db, item.entity_id)
            .unwrap()
            .active
    );

    let changed: Vec<(&str, &str, &str)> = venue
        .db
        .audit
        .iter()
        .filter(|entry| {
            matches!(
                entry.action.as_str(),
                "STAFF_DEACTIVATED" | "PRODUCT_CHANGED" | "SALE_ITEM_CHANGED"
            )
        })
        .map(|entry| {
            (
                entry.action.as_str(),
                entry.old_value.as_deref().unwrap_or(""),
                entry.new_value.as_deref().unwrap_or(""),
            )
        })
        .collect();
    assert_eq!(changed.len(), 3);
    assert_eq!(changed[0].1, "active=1");
    assert_eq!(changed[0].2, "active=0");
    assert!(changed[1].1.contains("name=Beer"));
    assert!(changed[1].2.contains("name=Amber Beer"));
    assert!(changed[2].1.contains("active=1"));
    assert!(changed[2].2.contains("active=0"));
}

#[test]
fn a_rejected_price_does_not_close_the_current_price_or_add_an_audit_entry() {
    let mut venue = venue();
    let item = commissioning::create_sale_item(
        &mut venue.db,
        venue.owner,
        &NewSaleItem {
            name: "Beer",
            category: "Bottles",
        },
        NOW,
    )
    .unwrap();
    commissioning::reprice(
        &mut venue.db,
        venue.owner,
        item.entity_id,
        Money::from_minor(5_000),
        NOW + 1,
    )
    .unwrap();
    let before_audit = venue.db.audit.len();

    assert!(commissioning::reprice(
        &mut venue.db,
        venue.owner,
        item.entity_id,
        Money::from_minor(-1),
        NOW + 2,
    )
    .is_err());

    let current: Vec<i64> = venue
        .db
        .prices
        .iter()
        .filter(|price| price.sale_item_id == item.entity_id && price.effective_to.is_none())
        .map(|price| price.price.minor())
        .collect();
    assert_eq!(current, [5_000]);
    assert_eq!(venue.db.audit.len(), before_audit);
}
