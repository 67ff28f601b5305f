//! What the owner sets a venue up with, screen by screen.

use servepoint::commissioning::{BaseUnit, Destination, Measure};
use servepoint::money::Milli;
use servepoint::repo::{catalogue, staff, stock};
use servepoint::settings::{keys, SettingRow};
use servepoint::state::Session;
use servepoint::store::Store;
use servepoint::venue;

const NOW: i64 = 1_754_000_000_000; // 2025-08-01, mid-evening UTC

/// A till with the settings it is shipped with and nothing else in it.
fn fresh() -> Store {
    let mut db = Store::new();
    for (key, value) in [
        (keys::TAX_ENABLED, "0"),
        (keys::TAX_RATE_BP, "1500"),
        (keys::TAX_INCLUSIVE, "0"),
        (keys::SERVICE_ENABLED, "1"),
        (keys::SERVICE_RATE_BP, "1000"),
        (keys::DAY_START, "18:00"),
        (keys::DAY_END, "06:00"),
        (keys::TABS_REFERENCE_MODE, "TABLE"),
        (keys::TABS_AGE_WARNING_DAYS, "7"),
        (keys::TABS_ASK_CUSTOMER_TIN, "0"),
        (keys::COMPS_ENABLED, "0"),
        (keys::PARTIAL_ENABLED, "1"),
        (keys::BANK_ACCOUNTS, ""),
        (keys::QR_ENABLED, "0"),
        (keys::PRINT_REPORT, "0"),
        (keys::PRINT_CUSTOMER_RECEIPT, "1"),
        (keys::SHOW_COST, "0"),
        (keys::BUSINESS_NAME, ""),
        (keys::ADDRESS, ""),
        (keys::PHONE, ""),
        (keys::TIN, ""),
        (keys::FOOTER, ""),
        (keys::CHARS_PER_LINE, "32"),
        (keys::CURRENCY_CODE, ""),
        (keys::ROUNDING, "NONE"),
        (keys::SETUP_COMPLETED, "0"),
    ] {
        db.settings.push(SettingRow {
            key: key.to_owned(),
            value: value.to_owned(),
            updated_at: 0,
            updated_by: None,
        });
    }
    db
}

fn staff_member(db: &mut Store, code: &str, name: &str, role: &str) -> i64 {
    let role = staff::Role::parse(role).unwrap();
    let pin = if role.authenticates() {
        Some(("salt", "hash"))
    } else {
        None
    };
    staff::add(db, code, name, role, pin, NOW).unwrap()
}

struct Till {
    db: Store,
    session: Option<Session>,
}

fn owned() -> Till {
    let mut db = fresh();
    let owner = staff_member(&mut db, "OWN-1", "Selam", "OWNER");
    staff_member(&mut db, "CSH-1", "Abel", "CASHIER");
    Till {
        db,
        session: Some(Session {
            staff_id: owner,
            code: "OWN-1".into(),
            name: "Selam".into(),
            role: "OWNER".into(),
        }),
    }
}

fn product_form(name: &str) -> venue::ProductForm {
    venue::ProductForm {
        sale_price: None,
        content_measure: Measure::Whole,
        content_per_unit_milli: 0,
        name: name.into(),
        category: "Beer".into(),
        base_unit: BaseUnit::Bottle,
        base_units_per_pack: 1_000,
        units_per_purchase_pack: 24,
        low_stock_threshold: 3_000,
        tracks_inventory: true,
        destination: Destination::Bar,
        active: true,
    }
}

#[test]
fn a_fresh_venue_says_what_is_missing_until_it_can_trade() {
    let mut till = owned();
    let view = venue::setup_view(&till.db, &till.session).unwrap();
    assert!(!view.can_trade);
    assert_eq!(view.missing.len(), 3, "{:?}", view.missing);

    let view = venue::add_product(&mut till.db, &till.session, &product_form("Beer"), NOW).unwrap();
    let beer = view.products[0].id;
    assert!(!view.can_trade);

    let view = venue::add_sale_item(
        &mut till.db,
        &till.session,
        &venue::SaleItemForm {
            name: "Beer".into(),
            category: "Bottles".into(),
            active: true,
        },
        NOW,
    )
    .unwrap();
    let bottle = view.sale_items[0].id;
    // Named, but not yet sellable: no recipe and no price.
    assert!(!view.sale_items[0].sellable);
    assert!(view.sale_items[0].price.is_none());

    venue::set_recipe(
        &mut till.db,
        &till.session,
        bottle,
        &[venue::RecipeLineForm {
            product_id: beer,
            quantity_milli: 1_000,
            in_measure: false,
        }],
        NOW,
    )
    .unwrap();
    let view = venue::set_price(&mut till.db, &till.session, bottle, "50", NOW).unwrap();
    assert!(view.sale_items[0].sellable);
    assert_eq!(view.sale_items[0].price.as_deref(), Some("50.00"));
    assert_eq!(view.sale_items[0].recipe[0].name, "Beer");
    // Still no waiter, so no tab could be opened in anybody's name.
    assert!(!view.can_trade);
    assert_eq!(view.missing.len(), 1);

    let view = venue::add_staff(
        &mut till.db,
        &till.session,
        &venue::StaffForm {
            name: "Sara".into(),
            role: "WAITER".into(),
            pin: None,
        },
        None,
        NOW,
    )
    .unwrap();
    assert!(view.can_trade, "{:?}", view.missing);
    assert!(view.missing.is_empty());
}

#[test]
fn something_removed_stays_visible_so_it_can_come_back() {
    // A removed product that vanished from this screen could never be
    // restored, and nothing would show it had been taken off.
    let mut till = owned();
    venue::add_product(&mut till.db, &till.session, &product_form("Gin"), NOW).unwrap();
    let gin = venue::setup_view(&till.db, &till.session).unwrap().products[0].id;

    let view = venue::set_product_active(&mut till.db, &till.session, gin, false, NOW).unwrap();
    let line = view.products.iter().find(|p| p.id == gin).unwrap();
    assert!(!line.active, "removed but still listed");

    let view = venue::set_product_active(&mut till.db, &till.session, gin, true, NOW).unwrap();
    assert!(view.products.iter().find(|p| p.id == gin).unwrap().active);
}

#[test]
fn stock_on_the_shelf_blocks_removal_but_never_editing() {
    // Nothing that is not empty is removed, but it may always be edited.
    let mut till = owned();
    venue::add_product(&mut till.db, &till.session, &product_form("Gin"), NOW).unwrap();
    let gin = venue::setup_view(&till.db, &till.session).unwrap().products[0].id;
    stock::post(
        &mut till.db,
        &stock::Movement::new(
            gin,
            stock::Kind::StockCorrection,
            Milli::from_units(4),
            NOW,
            1,
        )
        .because("test shelf"),
    )
    .unwrap();

    let refused = venue::set_product_active(
        &mut till.db,
        &till.session,
        gin,
        false,
        NOW,
    )
    .unwrap_err();
    assert_eq!(refused.kind(), "REFUSED");
    assert!(refused.message().contains("shelf"), "got: {refused:?}");

    // Editing is untouched by any of that.
    let mut form = product_form("Gin");
    form.category = "Spirits".into();
    assert!(venue::edit_product(&mut till.db, &till.session, gin, &form, NOW).is_ok());
}

#[test]
fn a_shot_is_sellable_the_moment_it_is_added() {
    // Built as three separate commands from the screen, a shot could end
    // up with a menu entry and no recipe, or a recipe and no price — which
    // is how this venue ended up with two items that looked finished in
    // the catalogue and were refused at the till.
    let mut till = owned();
    let mut form = product_form("Jack Daniels");
    form.content_measure = Measure::Ml;
    form.content_per_unit_milli = 750_000;
    form.sale_price = Some("3000".into());
    venue::add_product(&mut till.db, &till.session, &form, NOW).unwrap();
    let bottle = venue::setup_view(&till.db, &till.session).unwrap().products[0].id;

    // 30ml of a 750ml bottle.
    let view = venue::sell_by_measure(
        &mut till.db,
        &till.session,
        bottle,
        30_000,
        "100",
        NOW,
    )
    .unwrap();

    let shot = view
        .sale_items
        .iter()
        .find(|item| item.name.contains("30ml"))
        .expect("the shot is on the menu under its own name");
    assert!(shot.sellable, "priced and poured, so the till can ring it");
    assert_eq!(shot.price.as_deref(), Some("100.00"));
    assert_eq!(shot.recipe.len(), 1, "one bottle, never a cocktail");
    assert_eq!(shot.recipe[0].measure_quantity, "30");
}

#[test]
fn a_bottle_that_does_not_say_how_much_it_holds_cannot_be_poured() {
    let mut till = owned();
    venue::add_product(&mut till.db, &till.session, &product_form("Harar Beer"), NOW).unwrap();
    let beer = venue::setup_view(&till.db, &till.session).unwrap().products[0].id;

    let refused = venue::sell_by_measure(
        &mut till.db,
        &till.session,
        beer,
        30_000,
        "100",
        NOW,
    )
    .unwrap_err();
    assert_eq!(refused.kind(), "REFUSED");
    assert!(
        refused.message().contains("how much one holds"),
        "{refused:?}"
    );
}

#[test]
fn renaming_a_shelf_item_renames_what_the_till_offers() {
    // The pair share a name, copied across when they were made. A rename
    // that stopped at the shelf would leave the till still selling "Gin"
    // long after the bottle became "Gordon's gin".
    let mut till = owned();
    let mut form = product_form("Gin");
    form.sale_price = Some("1200".into());
    venue::add_product(&mut till.db, &till.session, &form, NOW).unwrap();
    let gin = venue::setup_view(&till.db, &till.session).unwrap().products[0].id;

    form.name = "Gordon's gin".into();
    let view = venue::edit_product(&mut till.db, &till.session, gin, &form, NOW).unwrap();

    let shelf = view.products.iter().find(|p| p.id == gin).unwrap();
    assert_eq!(shelf.name, "Gordon's gin");
    let twin = view
        .sale_items
        .iter()
        .find(|item| item.from_product_id == Some(gin))
        .unwrap();
    assert_eq!(twin.name, "Gordon's gin", "the till kept the old name");
    // What an edit box is filled with has to be what `Money::parse` reads
    // back: the formatted "1,200.00" would be refused on the way in.
    assert_eq!(shelf.price_value.as_deref(), Some("1200.00"));
}

#[test]
fn an_ingredient_of_a_live_drink_cannot_be_removed() {
    let mut till = owned();
    venue::add_product(&mut till.db, &till.session, &product_form("Gin"), NOW).unwrap();
    let gin = venue::setup_view(&till.db, &till.session).unwrap().products[0].id;
    let drink = venue::add_sale_item(
        &mut till.db,
        &till.session,
        &venue::SaleItemForm {
            name: "Gin and tonic".into(),
            category: "Cocktails".into(),
            active: true,
        },
        NOW,
    )
    .unwrap()
    .sale_items
    .iter()
    .find(|item| item.name == "Gin and tonic")
    .unwrap()
    .id;
    venue::set_recipe(
        &mut till.db,
        &till.session,
        drink,
        &[venue::RecipeLineForm {
            product_id: gin,
            quantity_milli: 1_000,
            in_measure: false,
        }],
        NOW,
    )
    .unwrap();

    let refused = venue::set_product_active(
        &mut till.db,
        &till.session,
        gin,
        false,
        NOW,
    )
    .unwrap_err();
    assert_eq!(refused.kind(), "REFUSED");
    assert!(
        refused.message().contains("Gin and tonic"),
        "the refusal should name the drink; got: {refused:?}"
    );
}

#[test]
fn a_drink_nobody_is_drinking_comes_off_the_menu() {
    let mut till = owned();
    let drink = venue::add_sale_item(
        &mut till.db,
        &till.session,
        &venue::SaleItemForm {
            name: "Negroni".into(),
            category: "Cocktails".into(),
            active: true,
        },
        NOW,
    )
    .unwrap()
    .sale_items[0]
        .id;

    let view = venue::set_sale_item_active(&mut till.db, &till.session, drink, false, NOW).unwrap();
    assert!(
        !view
            .sale_items
            .iter()
            .find(|i| i.id == drink)
            .unwrap()
            .active
    );
}

#[test]
fn a_cashier_may_look_at_the_catalogue_but_not_change_it() {
    let mut till = owned();
    till.session = Some(Session {
        staff_id: 2,
        code: "CSH-1".into(),
        name: "Abel".into(),
        role: "CASHIER".into(),
    });
    venue::setup_view(&till.db, &till.session).unwrap();
    assert_eq!(
        venue::add_product(
            &mut till.db,
            &till.session,
            &product_form("Gin"),
            NOW,
        )
        .unwrap_err()
        .kind(),
        "NOT_PERMITTED"
    );
}

#[test]
fn a_signing_in_role_cannot_be_created_without_a_pin() {
    let mut till = owned();
    let refused = venue::add_staff(
        &mut till.db,
        &till.session,
        &venue::StaffForm {
            name: "Hanna".into(),
            role: "CASHIER".into(),
            pin: None,
        },
        None,
        NOW,
    )
    .unwrap_err();
    assert_eq!(refused.kind(), "REFUSED");
    assert!(refused.message().contains("PIN"), "{}", refused.message());
}

#[test]
fn a_form_is_read_before_anything_is_changed() {
    let mut form = venue::StaffForm {
        name: "Hanna".into(),
        role: "CASHIER".into(),
        pin: Some("4071".into()),
    };
    let (role, pin) = venue::staff_of(&form).unwrap();
    assert_eq!(role, staff::Role::Cashier);
    assert_eq!(pin.as_deref(), Some("4071"));
    form.role = "WAITER".into();
    assert_eq!(venue::staff_of(&form).unwrap().1, None);
    form.role = "CHEF".into();
    assert!(venue::staff_of(&form).is_err());
}

#[test]
fn a_menu_entry_can_be_renamed() {
    let mut till = owned();
    let mut form = venue::SaleItemForm {
        name: "Negroni".into(),
        category: "Cocktails".into(),
        active: true,
    };
    let view = venue::add_sale_item(&mut till.db, &till.session, &form, NOW).unwrap();
    let drink = view.sale_items[0].id;
    form.name = "  White Negroni ".into();
    let view = venue::edit_sale_item(&mut till.db, &till.session, drink, &form, NOW).unwrap();
    assert_eq!(view.sale_items[0].name, "White Negroni");
}

#[test]
fn an_entry_made_of_uncounted_things_is_sellable_like_any_other() {
    let mut till = owned();
    let mut form = product_form("Cover");
    form.tracks_inventory = false;
    form.sale_price = Some("20".into());
    let view = venue::add_product(&mut till.db, &till.session, &form, NOW).unwrap();
    assert!(view.sale_items[0].sellable);
    assert!(view.sale_items[0].recipe.is_empty());
    assert_eq!(catalogue::menu(&till.db).len(), 1);

    let waiter = venue::StaffForm {
        name: "Sara".into(),
        role: "WAITER".into(),
        pin: None,
    };
    let view = venue::add_staff(&mut till.db, &till.session, &waiter, None, NOW).unwrap();
    assert!(view.can_trade, "{:?}", view.missing);
}
