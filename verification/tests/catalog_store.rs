use archmie::catalog::get_default_commands;
use archmie::catalog::CommandData;
use archmie::catalog::CommandsFile;
use archmie::codec::parse_commands_file;
use archmie::codec::render_commands_file;
use archmie::store::config_path_segments;
use archmie::store::home_unavailable_message;
use archmie::store::plan_load;
use archmie::store::LoadPlan;

fn entry(
    id: &str,
    category: &str,
    subcategory: &str,
    title: &str,
    command: &str,
    description: &str,
    is_admin: bool,
) -> CommandData {
    CommandData {
        id: id.to_string(),
        category: category.to_string(),
        subcategory: subcategory.to_string(),
        title: title.to_string(),
        command: command.to_string(),
        description: description.to_string(),
        is_admin,
    }
}

#[test]
fn default_catalog_holds_the_three_seed_entries() {
    let c = get_default_commands();
    assert_eq!(c.commands.len(), 3);
    assert_eq!(
        c.commands[0],
        entry(
            "1",
            "Sistema",
            "Atualizar Sistema",
            "Atualizar Sistema",
            "sudo pacman -Syu",
            "Atualiza todo o sistema e pacotes",
            true,
        )
    );
    assert_eq!(
        c.commands[1],
        entry(
            "2",
            "Pacotes",
            "Instalar Pacote",
            "Instalar Pacote",
            "sudo pacman -S",
            "Instala um pacote específico",
            true,
        )
    );
    assert_eq!(
        c.commands[2],
        entry(
            "3",
            "Pacotes",
            "Procurar Pacote",
            "Procurar Pacote",
            "pacman -Ss",
            "Procura por pacotes no repositório",
            false,
        )
    );
}

#[test]
fn save_then_load_round_trips_a_catalog() {
    let c = CommandsFile {
        commands: vec![
            entry("a", "Cat", "Sub", "Título", "echo \"oi\\tchau\"", "desc com\nlinhas", true),
            entry("b", "", "", "", "", "", false),
        ],
    };
    let text = render_commands_file(&c);
    let back = parse_commands_file(&text).unwrap();
    assert_eq!(back, c);
}

#[test]
fn empty_catalog_round_trips() {
    let c = CommandsFile { commands: vec![] };
    let text = render_commands_file(&c);
    assert_eq!(text, "{\"commands\":[]}");
    assert_eq!(parse_commands_file(&text).unwrap(), c);
}

#[test]
fn parser_accepts_pretty_printed_text() {
    let text = "{\n  \"commands\": [\n    {\n      \"id\": \"9\",\n      \"category\": \"C\",\n      \"subcategory\": \"S\",\n      \"title\": \"T\",\n      \"command\": \"uname -a\",\n      \"description\": \"D\",\n      \"isAdmin\": false\n    }\n  ]\n}\n";
    let c = parse_commands_file(text).unwrap();
    assert_eq!(c.commands.len(), 1);
    assert_eq!(c.commands[0], entry("9", "C", "S", "T", "uname -a", "D", false));
}

#[test]
fn parser_rejects_malformed_text() {
    for bad in [
        "",
        "{}",
        "{\"commands\":}",
        "{\"commands\":[",
        "{\"commands\":[{}]}",
        "{\"commands\":[]} trailing",
        "{\"commands\":[{\"id\":\"1\"}]}",
        "[1,2,3]",
    ] {
        let r = parse_commands_file(bad);
        assert!(r.is_err());
        assert_eq!(r.unwrap_err(), "Erro ao parsear JSON: formato inválido");
    }
}

#[test]
fn loading_without_a_stored_catalog_bootstraps_the_defaults() {
    // The store writes the paired text; loading that text again gives the
    // same three entries (idempotence of the bootstrap).
    match plan_load(None).unwrap() {
        LoadPlan::InitDefault(c, text) => {
            assert_eq!(c, get_default_commands());
            let again = parse_commands_file(&text).unwrap();
            assert_eq!(again, c);
        }
        LoadPlan::UseStored(_) => panic!("an absent catalog must be bootstrapped"),
    }
}

#[test]
fn loading_a_stored_catalog_uses_it_as_it_stands() {
    let stored = render_commands_file(&get_default_commands());
    match plan_load(Some(&stored)).unwrap() {
        LoadPlan::UseStored(c) => assert_eq!(c, get_default_commands()),
        LoadPlan::InitDefault(_, _) => panic!("a stored catalog must be used, not replaced"),
    }
}

#[test]
fn loading_a_malformed_catalog_reports_the_parse_error() {
    assert!(plan_load(Some("nada")).is_err());
}

#[test]
fn catalog_lives_under_the_per_user_config_directory() {
    let segs = config_path_segments();
    assert_eq!(segs, vec![".config", "archmie", "commands.json"]);
    assert_eq!(
        home_unavailable_message(),
        "Não foi possível encontrar o diretório home"
    );
}

#[test]
fn rendered_text_uses_the_exact_stored_field_names() {
    let text = render_commands_file(&get_default_commands());
    for key in [
        "\"commands\"",
        "\"id\"",
        "\"category\"",
        "\"subcategory\"",
        "\"title\"",
        "\"command\"",
        "\"description\"",
        "\"isAdmin\"",
    ] {
        assert!(text.contains(key));
    }
    assert!(text.starts_with("{\"commands\":[{\"id\":\"1\","));
}
