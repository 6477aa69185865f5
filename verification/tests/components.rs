use rusite_front_ending::components::{
    card_classes, class_or_default, CardElevation, CardPadding, CardRadius, CardVariant,
};

#[test]
fn variants_have_their_classes() {
    assert_eq!(CardVariant::Default.as_class(), "");
    assert_eq!(CardVariant::Primary.as_class(), "bg-primary-50 dark:bg-primary-900/20");
    assert_eq!(CardVariant::Outline.as_class(), "border border-gray-300 dark:border-gray-600");
    assert_eq!(CardVariant::Borderless.as_class(), "bg-transparent shadow-none");
}

#[test]
fn paddings_have_their_classes() {
    assert_eq!(CardPadding::Zero.as_class(), "");
    assert_eq!(CardPadding::Sm.as_class(), "p-4");
    assert_eq!(CardPadding::Md.as_class(), "p-6");
    assert_eq!(CardPadding::Lg.as_class(), "p-8");
    assert_eq!(CardPadding::Xl.as_class(), "p-12");
}

#[test]
fn elevations_have_their_classes() {
    assert_eq!(CardElevation::Flat.as_class(), "");
    assert_eq!(CardElevation::Sm.as_class(), "shadow-sm");
    assert_eq!(CardElevation::Md.as_class(), "shadow-md");
    assert_eq!(CardElevation::Lg.as_class(), "shadow-lg");
    assert_eq!(CardElevation::Xl.as_class(), "shadow-xl");
    assert_eq!(CardElevation::Xxl.as_class(), "shadow-2xl");
    assert_eq!(CardElevation::Xxxl.as_class(), "shadow-3xl");
}

#[test]
fn radii_have_their_classes() {
    assert_eq!(CardRadius::Square.as_class(), "");
    assert_eq!(CardRadius::Sm.as_class(), "rounded-sm");
    assert_eq!(CardRadius::Md.as_class(), "rounded-md");
    assert_eq!(CardRadius::Lg.as_class(), "rounded-lg");
    assert_eq!(CardRadius::Full.as_class(), "rounded-full");
}

#[test]
fn defaults_are_as_declared() {
    assert_eq!(CardVariant::default(), CardVariant::Default);
    assert_eq!(CardPadding::default(), CardPadding::Sm);
    assert_eq!(CardElevation::default(), CardElevation::Md);
    assert_eq!(CardRadius::default(), CardRadius::Md);
}

#[test]
fn a_card_has_its_classes_in_order() {
    assert_eq!(
        card_classes(CardPadding::Md, CardRadius::Md, CardElevation::Md, CardElevation::Lg, "flex mx-auto"),
        "p-6 bg-white rounded-md shadow-md hover:shadow-lg transition-all duration-300 flex mx-auto"
    );
    assert_eq!(
        card_classes(CardPadding::Zero, CardRadius::Square, CardElevation::Flat, CardElevation::Flat, ""),
        " bg-white   hover: transition-all duration-300 "
    );
}

#[test]
fn own_classes_win_over_the_default() {
    assert_eq!(class_or_default("", "text-gray-700"), "text-gray-700");
    assert_eq!(class_or_default("mine", "text-gray-700"), "mine");
    assert_eq!(class_or_default(" ", "text-gray-700"), " ");
    assert_eq!(class_or_default("", ""), "");
}

#[test]
fn the_current_page_has_another_ground() {
    let common = "px-4 py-2 mx-1 text-gray-700 border border-gray-300 rounded-md hover:bg-gray-100 focus:outline-none focus:ring focus:ring-gray-300 ";
    assert_eq!(rusite_front_ending::components::page_button_class(true), format!("{}bg-blue-200", common));
    assert_eq!(rusite_front_ending::components::page_button_class(false), format!("{}bg-white", common));
}
