use vstd::prelude::*;

verus! {

/// The closed set of sport decoders the telemetry source can be read with.
#[derive(Debug, Clone, Copy, PartialEq, Eq, Structural)]
pub enum DynamicSportType {
    AutoRacing,
    Baseball,
    Basketball,
    Cricket,
    EventCounterDayTime,
    EventCounterExternalInput,
    EventCounterTimeBase,
    Football,
    HockeyLacrosse,
    Judo,
    Karate,
    LaneTimer,
    PitchAndSpeed,
    Rodeo,
    Soccer,
    StrikeOutCount,
    Taekwondo,
    Tennis,
    Track,
    Volleyball,
    WaterPolo,
    Wrestling,
}

/// The operator-facing name of each sport.
pub open spec fn spec_sport_name(s: DynamicSportType) -> Seq<char> {
    match s {
        DynamicSportType::AutoRacing => "Auto Racing"@,
        DynamicSportType::Baseball => "Baseball"@,
        DynamicSportType::Basketball => "Basketball"@,
        DynamicSportType::Cricket => "Cricket"@,
        DynamicSportType::EventCounterDayTime => "Event Counter: Day/Time"@,
        DynamicSportType::EventCounterExternalInput => "Event Counter: External Input"@,
        DynamicSportType::EventCounterTimeBase => "Event Counter: Time Base"@,
        DynamicSportType::Football => "Football"@,
        DynamicSportType::HockeyLacrosse => "Hockey/Lacrosse"@,
        DynamicSportType::Judo => "Judo"@,
        DynamicSportType::Karate => "Karate"@,
        DynamicSportType::LaneTimer => "Lane Timer"@,
        DynamicSportType::PitchAndSpeed => "Pitch and Speed"@,
        DynamicSportType::Rodeo => "Rodeo"@,
        DynamicSportType::Soccer => "Soccer"@,
        DynamicSportType::StrikeOutCount => "StrikeOutCount"@,
        DynamicSportType::Taekwondo => "Taekwondo"@,
        DynamicSportType::Tennis => "Tennis"@,
        DynamicSportType::Track => "Track"@,
        DynamicSportType::Volleyball => "Volleyball"@,
        DynamicSportType::WaterPolo => "Water Polo"@,
        DynamicSportType::Wrestling => "Wrestling"@,
    }
}

impl DynamicSportType {
    /// The operator-facing name of this sport.
    pub fn name(&self) -> (r: &'static str)
        ensures
            r@ == spec_sport_name(*self),
    {
        match self {
            DynamicSportType::AutoRacing => "Auto Racing",
            DynamicSportType::Baseball => "Baseball",
            DynamicSportType::Basketball => "Basketball",
            DynamicSportType::Cricket => "Cricket",
            DynamicSportType::EventCounterDayTime => "Event Counter: Day/Time",
            DynamicSportType::EventCounterExternalInput => "Event Counter: External Input",
            DynamicSportType::EventCounterTimeBase => "Event Counter: Time Base",
            DynamicSportType::Football => "Football",
            DynamicSportType::HockeyLacrosse => "Hockey/Lacrosse",
            DynamicSportType::Judo => "Judo",
            DynamicSportType::Karate => "Karate",
            DynamicSportType::LaneTimer => "Lane Timer",
            DynamicSportType::PitchAndSpeed => "Pitch and Speed",
            DynamicSportType::Rodeo => "Rodeo",
            DynamicSportType::Soccer => "Soccer",
            DynamicSportType::StrikeOutCount => "StrikeOutCount",
            DynamicSportType::Taekwondo => "Taekwondo",
            DynamicSportType::Tennis => "Tennis",
            DynamicSportType::Track => "Track",
            DynamicSportType::Volleyball => "Volleyball",
            DynamicSportType::WaterPolo => "Water Polo",
            DynamicSportType::Wrestling => "Wrestling",
        }
    }

    /// Every sport, in presentation order.
    pub fn all() -> (r: Vec<DynamicSportType>)
        ensures
            r@ == seq![
                DynamicSportType::AutoRacing,
                DynamicSportType::Baseball,
                DynamicSportType::Basketball,
                DynamicSportType::Cricket,
                DynamicSportType::EventCounterDayTime,
                DynamicSportType::EventCounterExternalInput,
                DynamicSportType::EventCounterTimeBase,
                DynamicSportType::Football,
                DynamicSportType::HockeyLacrosse,
                DynamicSportType::Judo,
                DynamicSportType::Karate,
                DynamicSportType::LaneTimer,
                DynamicSportType::PitchAndSpeed,
                DynamicSportType::Rodeo,
                DynamicSportType::Soccer,
                DynamicSportType::StrikeOutCount,
                DynamicSportType::Taekwondo,
                DynamicSportType::Tennis,
                DynamicSportType::Track,
                DynamicSportType::Volleyball,
                DynamicSportType::WaterPolo,
                DynamicSportType::Wrestling,
            ],
    {
        let mut r: Vec<DynamicSportType> = Vec::new();
        r.push(DynamicSportType::AutoRacing);
        r.push(DynamicSportType::Baseball);
        r.push(DynamicSportType::Basketball);
        r.push(DynamicSportType::Cricket);
        r.push(DynamicSportType::EventCounterDayTime);
        r.push(DynamicSportType::EventCounterExternalInput);
        r.push(DynamicSportType::EventCounterTimeBase);
        r.push(DynamicSportType::Football);
        r.push(DynamicSportType::HockeyLacrosse);
        r.push(DynamicSportType::Judo);
        r.push(DynamicSportType::Karate);
        r.push(DynamicSportType::LaneTimer);
        r.push(DynamicSportType::PitchAndSpeed);
        r.push(DynamicSportType::Rodeo);
        r.push(DynamicSportType::Soccer);
        r.push(DynamicSportType::StrikeOutCount);
        r.push(DynamicSportType::Taekwondo);
        r.push(DynamicSportType::Tennis);
        r.push(DynamicSportType::Track);
        r.push(DynamicSportType::Volleyball);
        r.push(DynamicSportType::WaterPolo);
        r.push(DynamicSportType::Wrestling);
        proof {
            assert(r@ =~= seq![
                DynamicSportType::AutoRacing,
                DynamicSportType::Baseball,
                DynamicSportType::Basketball,
                DynamicSportType::Cricket,
                DynamicSportType::EventCounterDayTime,
                DynamicSportType::EventCounterExternalInput,
                DynamicSportType::EventCounterTimeBase,
                DynamicSportType::Football,
                DynamicSportType::HockeyLacrosse,
                DynamicSportType::Judo,
                DynamicSportType::Karate,
                DynamicSportType::LaneTimer,
                DynamicSportType::PitchAndSpeed,
                DynamicSportType::Rodeo,
                DynamicSportType::Soccer,
                DynamicSportType::StrikeOutCount,
                DynamicSportType::Taekwondo,
                DynamicSportType::Tennis,
                DynamicSportType::Track,
                DynamicSportType::Volleyball,
                DynamicSportType::WaterPolo,
                DynamicSportType::Wrestling,
            ]);
        }
        r
    }
}

} // verus!
