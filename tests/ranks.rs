use owlbot::ranks::RankVariety;

#[test]
fn rank_thresholds() {
    assert_eq!(RankVariety::for_points(0), RankVariety::Common);
    assert_eq!(RankVariety::for_points(4), RankVariety::Common);
    assert_eq!(RankVariety::for_points(5), RankVariety::Uncommon);
    assert_eq!(RankVariety::for_points(10), RankVariety::CarnivorousGarden);
    assert_eq!(RankVariety::for_points(89), RankVariety::BinChicken);
    assert_eq!(RankVariety::for_points(90), RankVariety::DirtyBinChicken);
    assert_eq!(RankVariety::for_points(399), RankVariety::Nean);
    assert_eq!(RankVariety::for_points(400), RankVariety::Holee);
    assert_eq!(RankVariety::for_points(u32::MAX), RankVariety::Holee);
}

#[test]
fn rank_labels() {
    assert_eq!(RankVariety::Holee.label(), "HOLEE");
    assert_eq!(RankVariety::CarnivorousGarden.label(), "carnivorous garden");
    assert_eq!(RankVariety::LongFimsh.label(), "Long fimsh");
}

#[test]
fn ranks_in_order() {
    let all = RankVariety::all_variants();
    assert_eq!(all.len(), 17);
    assert_eq!(all[0], RankVariety::Common);
    assert_eq!(all[16], RankVariety::Holee);
}
