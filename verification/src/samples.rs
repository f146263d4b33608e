//! The sample sessions that a new store starts with.

use vstd::prelude::*;

verus! {

/// Seconds in an hour.
pub const HOUR_SECS: u64 = 3600;

/// Seconds in a day.
pub const DAY_SECS: u64 = 86400;

/// How many sample sessions there are.
pub open spec fn sample_count() -> int {
    7
}

/// The title of sample session `k`.
pub open spec fn sample_title(k: int) -> Seq<char> {
    if k == 0 {
        "Welcome"@
    } else if k == 1 {
        "Project ideas"@
    } else if k == 2 {
        "Weekend plans"@
    } else if k == 3 {
        "Book recommendations"@
    } else if k == 4 {
        "Trip to Lisbon"@
    } else if k == 5 {
        "Tax return"@
    } else {
        "Moving checklist"@
    }
}

/// How long ago, in seconds, sample session `k` last changed.
pub open spec fn sample_age_secs(k: int) -> int {
    if k == 0 {
        0
    } else if k == 1 {
        2 * HOUR_SECS
    } else if k == 2 {
        DAY_SECS as int
    } else if k == 3 {
        4 * DAY_SECS
    } else if k == 4 {
        12 * DAY_SECS
    } else if k == 5 {
        70 * DAY_SECS
    } else {
        400 * DAY_SECS
    }
}

/// The messages of sample session `k`, oldest first; they alternate
/// between the user and the assistant, the user first.
pub open spec fn sample_texts(k: int) -> Seq<Seq<char>> {
    if k == 0 {
        seq![
            "Hi! What can you do?"@,
            "I can help you write, plan, and learn. Ask me to draft an email, explain a concept, compare options, or break a big task into steps."@,
            "Can you remember things between chats?"@,
            "Each chat keeps its own history, so I can refer back to anything earlier in this conversation. A new chat starts fresh."@,
            "Okay. How do I get the best answers?"@,
            "Be specific about what you want and why. Tell me the audience, the length, and any constraints. If my first answer misses, say what to change and I will adjust."@,
            "Great, thanks!"@,
            "You're welcome. Ask me anything whenever you're ready."@,
        ]
    } else if k == 1 {
        seq![
            "Give me an idea for a weekend project."@,
            "Build a small weather station with a Raspberry Pi and log the data."@,
            "Nice. What hardware do I need?"@,
            "A Raspberry Pi Zero 2 W, a BME280 sensor for temperature, humidity, and pressure, a microSD card, jumper wires, and a 5 V power supply. A small weatherproof box helps if it goes outside."@,
            "How do I read the sensor?"@,
            "Enable I²C with raspi-config, wire the BME280 to 3.3 V, GND, SDA, and SCL, then use a library such as bme280 in Python to read the values every minute."@,
            "And where do I store the readings?"@,
            "Start with SQLite: one table with a timestamp and a column per reading. Later you can chart it with Grafana or a small web page."@,
            "Could I add a rain gauge later?"@,
            "Yes. A tipping-bucket gauge closes a reed switch on each tip, so wire it to a GPIO pin and count the pulses. Each tip is usually about 0.28 mm of rain."@,
        ]
    } else if k == 2 {
        seq![
            "Where can I go hiking near the city?"@,
            "Try the river trail: it is 12 km long and mostly flat."@,
            "Is it good for kids?"@,
            "Yes. The path is wide and well marked, and there are benches and a playground about halfway, near the old mill."@,
            "How long does it take?"@,
            "Most families walk it in three to four hours with breaks. You can also turn back at the mill for a 6 km loop."@,
            "What should we bring?"@,
            "Water, snacks, sunscreen, a light rain jacket, and comfortable shoes. The café at the mill is open on weekends if you want lunch."@,
        ]
    } else if k == 3 {
        seq![
            "Recommend a science fiction book."@,
            "Read \"The Left Hand of Darkness\" by Ursula K. Le Guin."@,
            "What is it about?"@,
            "An envoy visits Gethen, a frozen planet whose people have no fixed sex, to invite it into an interstellar alliance. It is a story about trust, politics, and friendship across a deep cultural gap."@,
            "I liked it. Something similar?"@,
            "Try \"The Dispossessed\", also by Le Guin, or \"A Memory Called Empire\" by Arkady Martine. Both focus on culture and politics more than on technology."@,
            "Anything shorter?"@,
            "\"All Systems Red\" by Martha Wells is about 150 pages: a security robot that hacked its own governor and just wants to watch its shows in peace."@,
        ]
    } else if k == 4 {
        seq![
            "What should I see in Lisbon?"@,
            "Visit Alfama, ride tram 28, and see the sunset from a miradouro."@,
            "I have three days. Can you make a plan?"@,
            "Day 1: Alfama, the castle, and tram 28 to Graça. Day 2: Belém for the tower, the Jerónimos Monastery, and pastéis de nata. Day 3: a day trip to Sintra for Pena Palace and the Moorish Castle."@,
            "Where should I stay?"@,
            "Baixa or Chiado are central, flat by Lisbon standards, and close to the metro. Príncipe Real is quieter and a little more upscale."@,
            "Any food I must try?"@,
            "Grilled sardines, bacalhau à brás, bifana sandwiches, and ginjinha, a sour cherry liqueur served in small cups near Rossio."@,
            "Do I need a car?"@,
            "No. Use the metro, trams, and trains; the train to Sintra leaves from Rossio station and takes about 40 minutes."@,
        ]
    } else if k == 5 {
        seq![
            "Which documents do I need for my tax return?"@,
            "You need your income statements, receipts for deductions, and your ID."@,
            "What counts as a deduction?"@,
            "Common ones are work expenses, pension contributions, donations to registered charities, and some healthcare costs. The rules vary by country, so check your tax authority's list."@,
            "When is the deadline?"@,
            "It depends on your country. Many have a spring deadline for the previous year, with an extension if you use a tax advisor."@,
            "Should I hire an advisor?"@,
            "If you have only a salary, you can usually file yourself. If you are self-employed, own rental property, or have foreign income, an advisor often saves more than they cost."@,
        ]
    } else {
        seq![
            "Make a short moving checklist."@,
            "Book movers, pack by room, change your address, and read the meters."@,
            "What should I do first?"@,
            "Book the movers six to eight weeks ahead, since good ones fill up fast, especially at the end of the month."@,
            "Any tips for packing?"@,
            "Start with rooms you use least. Label each box with its room and contents, keep heavy items in small boxes, and pack one essentials box with chargers, toiletries, and a kettle."@,
            "Who needs my new address?"@,
            "Your bank, employer, insurance, doctor, the tax office, and any subscriptions. Set up mail forwarding to catch the rest."@,
        ]
    }
}

/// The title, age in seconds and messages of sample session `k`.
pub(crate) fn sample_script(k: usize) -> (script: (&'static str, u64, Vec<&'static str>))
    requires
        k < sample_count(),
    ensures
        script.0@ == sample_title(k as int),
        script.1 == sample_age_secs(k as int),
        script.2@.map_values(|t: &str| t@) == sample_texts(k as int),
{
    let script = match k {
        0 => (
            "Welcome",
            0,
            vec![
                "Hi! What can you do?",
                "I can help you write, plan, and learn. Ask me to draft an email, explain a concept, compare options, or break a big task into steps.",
                "Can you remember things between chats?",
                "Each chat keeps its own history, so I can refer back to anything earlier in this conversation. A new chat starts fresh.",
                "Okay. How do I get the best answers?",
                "Be specific about what you want and why. Tell me the audience, the length, and any constraints. If my first answer misses, say what to change and I will adjust.",
                "Great, thanks!",
                "You're welcome. Ask me anything whenever you're ready.",
            ],
        ),
        1 => (
            "Project ideas",
            2 * HOUR_SECS,
            vec![
                "Give me an idea for a weekend project.",
                "Build a small weather station with a Raspberry Pi and log the data.",
                "Nice. What hardware do I need?",
                "A Raspberry Pi Zero 2 W, a BME280 sensor for temperature, humidity, and pressure, a microSD card, jumper wires, and a 5 V power supply. A small weatherproof box helps if it goes outside.",
                "How do I read the sensor?",
                "Enable I²C with raspi-config, wire the BME280 to 3.3 V, GND, SDA, and SCL, then use a library such as bme280 in Python to read the values every minute.",
                "And where do I store the readings?",
                "Start with SQLite: one table with a timestamp and a column per reading. Later you can chart it with Grafana or a small web page.",
                "Could I add a rain gauge later?",
                "Yes. A tipping-bucket gauge closes a reed switch on each tip, so wire it to a GPIO pin and count the pulses. Each tip is usually about 0.28 mm of rain.",
            ],
        ),
        2 => (
            "Weekend plans",
            DAY_SECS,
            vec![
                "Where can I go hiking near the city?",
                "Try the river trail: it is 12 km long and mostly flat.",
                "Is it good for kids?",
                "Yes. The path is wide and well marked, and there are benches and a playground about halfway, near the old mill.",
                "How long does it take?",
                "Most families walk it in three to four hours with breaks. You can also turn back at the mill for a 6 km loop.",
                "What should we bring?",
                "Water, snacks, sunscreen, a light rain jacket, and comfortable shoes. The café at the mill is open on weekends if you want lunch.",
            ],
        ),
        3 => (
            "Book recommendations",
            4 * DAY_SECS,
            vec![
                "Recommend a science fiction book.",
                "Read \"The Left Hand of Darkness\" by Ursula K. Le Guin.",
                "What is it about?",
                "An envoy visits Gethen, a frozen planet whose people have no fixed sex, to invite it into an interstellar alliance. It is a story about trust, politics, and friendship across a deep cultural gap.",
                "I liked it. Something similar?",
                "Try \"The Dispossessed\", also by Le Guin, or \"A Memory Called Empire\" by Arkady Martine. Both focus on culture and politics more than on technology.",
                "Anything shorter?",
                "\"All Systems Red\" by Martha Wells is about 150 pages: a security robot that hacked its own governor and just wants to watch its shows in peace.",
            ],
        ),
        4 => (
            "Trip to Lisbon",
            12 * DAY_SECS,
            vec![
                "What should I see in Lisbon?",
                "Visit Alfama, ride tram 28, and see the sunset from a miradouro.",
                "I have three days. Can you make a plan?",
                "Day 1: Alfama, the castle, and tram 28 to Graça. Day 2: Belém for the tower, the Jerónimos Monastery, and pastéis de nata. Day 3: a day trip to Sintra for Pena Palace and the Moorish Castle.",
                "Where should I stay?",
                "Baixa or Chiado are central, flat by Lisbon standards, and close to the metro. Príncipe Real is quieter and a little more upscale.",
                "Any food I must try?",
                "Grilled sardines, bacalhau à brás, bifana sandwiches, and ginjinha, a sour cherry liqueur served in small cups near Rossio.",
                "Do I need a car?",
                "No. Use the metro, trams, and trains; the train to Sintra leaves from Rossio station and takes about 40 minutes.",
            ],
        ),
        5 => (
            "Tax return",
            70 * DAY_SECS,
            vec![
                "Which documents do I need for my tax return?",
                "You need your income statements, receipts for deductions, and your ID.",
                "What counts as a deduction?",
                "Common ones are work expenses, pension contributions, donations to registered charities, and some healthcare costs. The rules vary by country, so check your tax authority's list.",
                "When is the deadline?",
                "It depends on your country. Many have a spring deadline for the previous year, with an extension if you use a tax advisor.",
                "Should I hire an advisor?",
                "If you have only a salary, you can usually file yourself. If you are self-employed, own rental property, or have foreign income, an advisor often saves more than they cost.",
            ],
        ),
        _ => (
            "Moving checklist",
            400 * DAY_SECS,
            vec![
                "Make a short moving checklist.",
                "Book movers, pack by room, change your address, and read the meters.",
                "What should I do first?",
                "Book the movers six to eight weeks ahead, since good ones fill up fast, especially at the end of the month.",
                "Any tips for packing?",
                "Start with rooms you use least. Label each box with its room and contents, keep heavy items in small boxes, and pack one essentials box with chargers, toiletries, and a kettle.",
                "Who needs my new address?",
                "Your bank, employer, insurance, doctor, the tax office, and any subscriptions. Set up mail forwarding to catch the rest.",
            ],
        ),
    };
    assert(script.2@.map_values(|t: &str| t@) =~= sample_texts(k as int));
    script
}

} // verus!
