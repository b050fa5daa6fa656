//! Messages in English or Russian.
use vstd::prelude::*;
use crate::text::{
    chars_of, eq_chars, find, find_exec, lemma_find_from, opt_int, push_all, push_str, spec_to_lowercase,
    starts_with, starts_with_exec, str_to_lowercase, string_of, sub_vec,
};

verus! {

/// The language messages are shown in.
#[derive(Clone, Copy, Debug)]
pub enum Lang {
    En,
    Ru,
}

/// A locale value that starts with `ru` in any case.
pub open spec fn asks_for_ru(value: Option<String>) -> bool {
    match value {
        Some(v) => starts_with(spec_to_lowercase(v@), "ru"@),
        None => false,
    }
}

/// The language the values of `LC_ALL`, `LC_MESSAGES`, `LANG` and `LANGUAGE`
/// (in that order, unset ones as `None`) ask for: Russian when one of them
/// starts with `ru` in any case, English otherwise.
pub open spec fn spec_lang_from_env(values: Seq<Option<String>>) -> Lang {
    if exists|i: int| 0 <= i < values.len() && asks_for_ru(#[trigger] values[i]) {
        Lang::Ru
    } else {
        Lang::En
    }
}

/// The language asked for by the locale variables' values.
pub fn lang_from_env(values: &[Option<String>]) -> (l: Lang)
    ensures
        l == spec_lang_from_env(values@),
{
    let ru = chars_of("ru");
    let mut i: usize = 0;
    while i < values.len()
        invariant
            i <= values@.len(),
            ru@ == "ru"@,
            forall|j: int| 0 <= j < i ==> !asks_for_ru(#[trigger] values@[j]),
        decreases values@.len() - i,
    {
        match &values[i] {
            Some(v) => {
                let lower = str_to_lowercase(v.as_str());
                let lc = chars_of(lower.as_str());
                if starts_with_exec(lc.as_slice(), ru.as_slice()) {
                    return Lang::Ru;
                }
            },
            None => {},
        }
        i = i + 1;
    }
    Lang::En
}

/// The Russian text for an English message, if the table has one.
pub open spec fn ru_text(en: Seq<char>) -> Option<Seq<char>> {
    if en == "Usage:"@ {
        Some("Использование:"@)
    } else if en == "  nymphalis <service> <command> [args...]"@ {
        Some("  nymphalis <сервис> <команда> [аргументы...]"@)
    } else if en == "Services:"@ {
        Some("Сервисы:"@)
    } else if en == "  gelbooru.com  (aliases: gelbu, gel, gelbooru)"@ {
        Some("  gelbooru.com  (псевдонимы: gelbu, gel, gelbooru)"@)
    } else if en == "  desu.uno      (aliases: desu)"@ {
        Some("  desu.uno      (псевдонимы: desu)"@)
    } else if en == "Commands (gelbooru.com):"@ {
        Some("Команды (gelbooru.com):"@)
    } else if en == "  nymphalis gelbooru.com download <dir> <tag1> [tag2] ..."@ {
        Some("  nymphalis gelbooru.com download <папка> <тег1> [тег2] ..."@)
    } else if en == "      Download all images for the given tags into <dir>."@ {
        Some("      Скачать все изображения по тегам в <папка>."@)
    } else if en == "  nymphalis gelbooru.com search <keyword>"@ {
        Some("  nymphalis gelbooru.com search <ключевое_слово>"@)
    } else if en == "      Search for tags matching <keyword>."@ {
        Some("      Поиск тегов по <ключевое_слово>."@)
    } else if en == "Commands (desu.uno):"@ {
        Some("Команды (desu.uno):"@)
    } else if en == "  nymphalis desu.uno download <dir> <slug.id> [slug.id2] ..."@ {
        Some("  nymphalis desu.uno download <папка> <slug.id> [slug.id2] ..."@)
    } else if en == "      Download all chapters of the given manga title(s) into <dir>."@ {
        Some("      Скачать все главы указанной манги в <папка> (можно указать несколько)."@)
    } else if en == "  nymphalis desu.uno search <keyword>"@ {
        Some("  nymphalis desu.uno search <ключевое_слово>"@)
    } else if en == "      Search for manga. Output: Human Title | slug.id"@ {
        Some("      Поиск манги. Вывод: Человеческое название | slug.id"@)
    } else if en == "Global commands:"@ {
        Some("Глобальные команды:"@)
    } else if en == "  nymphalis set <variable> <value>"@ {
        Some("  nymphalis set <variable> <value>"@)
    } else if en == "      Save a setting into {} . Variables: user_id, api_key, jobs."@ {
        Some("      Сохранить настройку в {} . Переменные: user_id, api_key, jobs."@)
    } else if en == "Examples:"@ {
        Some("Примеры:"@)
    } else if en == "  nymphalis set user_id 1955543"@ {
        Some("  nymphalis set user_id 1955543"@)
    } else if en == "  nymphalis set api_key c76c2060...your_key..."@ {
        Some("  nymphalis set api_key c76c2060...your_key..."@)
    } else if en == "  nymphalis set jobs 8"@ {
        Some("  nymphalis set jobs 8"@)
    } else if en == "  nymphalis gelbooru.com search aeg"@ {
        Some("  nymphalis gelbooru.com search aeg"@)
    } else if en == "  nymphalis gelbu download ./downloads cat blue_eyes"@ {
        Some("  nymphalis gelbu download ./downloads cat blue_eyes"@)
    } else if en == "  nymphalis desu.uno search gals"@ {
        Some("  nymphalis desu.uno search gals"@)
    } else if en == "  nymphalis desu download ./manga imaizumins-house-is-a-place-for-gals-to-gather.5467"@ {
        Some("  nymphalis desu download ./manga imaizumins-house-is-a-place-for-gals-to-gather.5467"@)
    } else if en == "Unknown service: {}\n"@ {
        Some("Неизвестный сервис: {}\n"@)
    } else if en == "Unknown option: {}\n"@ {
        Some("Неизвестная опция: {}\n"@)
    } else if en == "Unknown command for {}: {}\n"@ {
        Some("Неизвестная команда для {}: {}\n"@)
    } else if en == "Failed to build HTTP client: {}"@ {
        Some("Не удалось создать HTTP-клиент: {}"@)
    } else if en == "Failed to serialize config: {}"@ {
        Some("Не удалось сериализовать конфиг: {}"@)
    } else if en == "Failed to write {}: {}"@ {
        Some("Не удалось записать {}: {}"@)
    } else if en == "set requires exactly <variable> <value>.\n"@ {
        Some("set требует ровно <variable> <value>.\n"@)
    } else if en == "Unknown variable '{}'. Supported: user_id, api_key, jobs"@ {
        Some("Неизвестная переменная '{}'. Поддерживаются: user_id, api_key, jobs"@)
    } else if en == "jobs must be a positive integer."@ {
        Some("jobs должно быть положительным целым числом."@)
    } else if en == "Saved '{}' to {}"@ {
        Some("Сохранено '{}' в {}"@)
    } else if en == "Failed to create directory '{}': {}"@ {
        Some("Не удалось создать папку '{}': {}"@)
    } else if en == "Warning: GELBOORU_USER_ID / GELBOORU_API_KEY are not set"@ {
        Some("Внимание: GELBOORU_USER_ID / GELBOORU_API_KEY не заданы"@)
    } else if en == "(checked environment, .env, and {})."@ {
        Some("(проверены переменные окружения, .env и {})."@)
    } else if en == "Gelbooru now rejects anonymous API requests with 401 Unauthorized."@ {
        Some("Gelbooru теперь отклоняет анонимные запросы с кодом 401."@)
    } else if en == "Get your credentials at gelbooru.com -> My Account -> Options ->"@ {
        Some("Получи учётные данные на gelbooru.com -> My Account -> Options ->"@)
    } else if en == "API Access Credentials, then either:"@ {
        Some("API Access Credentials, затем либо:"@)
    } else if en == "  nymphalis set user_id 12345"@ {
        Some("  nymphalis set user_id 12345"@)
    } else if en == "  nymphalis set api_key yourkey"@ {
        Some("  nymphalis set api_key yourkey"@)
    } else if en == "or export them as environment variables."@ {
        Some("либо экспортируй их как переменные окружения."@)
    } else if en == "401 Unauthorized: Gelbooru requires API credentials for every"@ {
        Some("401 Unauthorized: Gelbooru требует учётные данные для каждого"@)
    } else if en == "request (anonymous access was disabled in 2025). Set:"@ {
        Some("запроса (анонимный доступ отключён с 2025 года). Задай:"@)
    } else if en == "  GELBOORU_USER_ID  and  GELBOORU_API_KEY"@ {
        Some("  GELBOORU_USER_ID  и  GELBOORU_API_KEY"@)
    } else if en == "(get them at gelbooru.com -> My Account -> Options ->"@ {
        Some("(получи их на gelbooru.com -> My Account -> Options ->"@)
    } else if en == "API Access Credentials) and try again."@ {
        Some("API Access Credentials) и попробуй снова."@)
    } else if en == "download requires a directory and at least one tag.\n"@ {
        Some("download требует папку и хотя бы один тег.\n"@)
    } else if en == "Tags: {}"@ {
        Some("Теги: {}"@)
    } else if en == "Output directory: {}"@ {
        Some("Папка для сохранения: {}"@)
    } else if en == "API request error (page {}): {}"@ {
        Some("Ошибка запроса к API (страница {}): {}"@)
    } else if en == "API returned status {} on page {}"@ {
        Some("API вернул статус {} на странице {}"@)
    } else if en == "No images found for the given tags."@ {
        Some("По указанным тегам ничего не найдено."@)
    } else if en == "No new images to download, everything is already on disk."@ {
        Some("Новых изображений нет, всё уже скачано."@)
    } else if en == "Checking file sizes..."@ {
        Some("Проверка размеров файлов..."@)
    } else if en == "Parallel workers: {}"@ {
        Some("Параллельных потоков: {}"@)
    } else if en == "About to download {} images (~{}). Continue? [y/N]: "@ {
        Some("Будет скачано {} изображений (~{}). Продолжить? [y/N]: "@)
    } else if en == "Cancelled."@ {
        Some("Отменено."@)
    } else if en == "Done. Downloaded: {}, skipped (already existed): {}"@ {
        Some("Готово. Скачано: {}, пропущено (уже было): {}"@)
    } else if en == "search expects exactly one keyword.\n"@ {
        Some("search требует ровно одно ключевое слово.\n"@)
    } else if en == "API request error: {}"@ {
        Some("Ошибка запроса к API: {}"@)
    } else if en == "API returned status {}"@ {
        Some("API вернул статус {}"@)
    } else if en == "Failed to read response: {}"@ {
        Some("Не удалось прочитать ответ: {}"@)
    } else if en == "Failed to parse JSON: {}\nServer response: {}"@ {
        Some("Не удалось распарсить JSON: {}\nОтвет сервера: {}"@)
    } else if en == "No tags found matching '{}'."@ {
        Some("Не найдено тегов, соответствующих '{}'."@)
    } else if en == "Tags matching '{}':\n"@ {
        Some("Теги, соответствующие '{}':\n"@)
    } else if en == "TAG"@ {
        Some("ТЕГ"@)
    } else if en == "POSTS"@ {
        Some("ПОСТОВ"@)
    } else if en == "{} tags found. Use the exact tag name with: nymphalis gelbooru.com download <dir> <tag>"@ {
        Some("Найдено тегов: {}. Используй точное имя с: nymphalis gelbooru.com download <папка> <тег>"@)
    } else if en == "Total"@ {
        Some("Всего"@)
    } else if en == "{} ({}/s)"@ {
        Some("{} ({}/с)"@)
    } else if en == "request error: {}"@ {
        Some("ошибка запроса: {}"@)
    } else if en == "status {}"@ {
        Some("статус {}"@)
    } else if en == "create file: {}"@ {
        Some("создание файла: {}"@)
    } else if en == "read: {}"@ {
        Some("чтение: {}"@)
    } else if en == "write: {}"@ {
        Some("запись: {}"@)
    } else if en == "rename file: {}"@ {
        Some("переименование файла: {}"@)
    } else if en == "download requires at least one manga title.\n"@ {
        Some("download требует хотя бы одно название манги.\n"@)
    } else if en == "No manga found matching '{}'."@ {
        Some("Манга по запросу '{}' не найдена."@)
    } else if en == "Manga matching '{}':\n"@ {
        Some("Манга по запросу '{}':\n"@)
    } else if en == "HUMAN TITLE"@ {
        Some("НАЗВАНИЕ"@)
    } else if en == "SYSTEM ID"@ {
        Some("СИСТЕМНЫЙ ID"@)
    } else if en == "{} results. Use the id/slug.id with: nymphalis desu.uno download <slug.id>"@ {
        Some("Найдено: {}. Используй id/slug.id с: nymphalis desu.uno download <slug.id>"@)
    } else if en == "Invalid manga id format: '{}'. Expected numeric id or 'slug.id'."@ {
        Some("Неверный формат id манги: '{}'. Ожидается числовой id или 'slug.id'."@)
    } else if en == "Failed to fetch manga info for id {}: {}"@ {
        Some("Не удалось получить информацию о манге с id {}: {}"@)
    } else if en == "No chapters found for '{}'."@ {
        Some("Главы для '{}' не найдены."@)
    } else if en == "Downloading '{}': {} chapter(s)"@ {
        Some("Скачивание '{}': {} глав(ы)"@)
    } else if en == "About to download {} chapter(s). Continue? [y/N]: "@ {
        Some("Будет скачано {} глав(ы). Продолжить? [y/N]: "@)
    } else if en == "Failed to fetch pages for chapter {}: {}"@ {
        Some("Не удалось получить страницы для главы {}: {}"@)
    } else if en == "No pages in chapter {}."@ {
        Some("Страниц в главе {} не найдено."@)
    } else if en == "Chapter {}/{}"@ {
        Some("Глава {}/{}"@)
    } else if en == "Done. {} chapter(s) downloaded."@ {
        Some("Готово. Скачано {} глав(ы)."@)
    } else if en == "Failed to fetch chapters for '{}': {}"@ {
        Some("Не удалось получить главы для '{}': {}"@)
    } else {
        None
    }
}

/// The Russian text for an English message, if the table has one.
pub fn ru_text_of(en: &[char]) -> (r: Option<&'static str>)
    ensures
        match r {
            Some(t) => ru_text(en@) == Some(t@),
            None => ru_text(en@) is None,
        },
{
    if eq_chars(en, chars_of("Usage:").as_slice()) {
        return Some("Использование:");
    }
    if eq_chars(en, chars_of("  nymphalis <service> <command> [args...]").as_slice()) {
        return Some("  nymphalis <сервис> <команда> [аргументы...]");
    }
    if eq_chars(en, chars_of("Services:").as_slice()) {
        return Some("Сервисы:");
    }
    if eq_chars(en, chars_of("  gelbooru.com  (aliases: gelbu, gel, gelbooru)").as_slice()) {
        return Some("  gelbooru.com  (псевдонимы: gelbu, gel, gelbooru)");
    }
    if eq_chars(en, chars_of("  desu.uno      (aliases: desu)").as_slice()) {
        return Some("  desu.uno      (псевдонимы: desu)");
    }
    if eq_chars(en, chars_of("Commands (gelbooru.com):").as_slice()) {
        return Some("Команды (gelbooru.com):");
    }
    if eq_chars(en, chars_of("  nymphalis gelbooru.com download <dir> <tag1> [tag2] ...").as_slice()) {
        return Some("  nymphalis gelbooru.com download <папка> <тег1> [тег2] ...");
    }
    if eq_chars(en, chars_of("      Download all images for the given tags into <dir>.").as_slice()) {
        return Some("      Скачать все изображения по тегам в <папка>.");
    }
    if eq_chars(en, chars_of("  nymphalis gelbooru.com search <keyword>").as_slice()) {
        return Some("  nymphalis gelbooru.com search <ключевое_слово>");
    }
    if eq_chars(en, chars_of("      Search for tags matching <keyword>.").as_slice()) {
        return Some("      Поиск тегов по <ключевое_слово>.");
    }
    if eq_chars(en, chars_of("Commands (desu.uno):").as_slice()) {
        return Some("Команды (desu.uno):");
    }
    if eq_chars(en, chars_of("  nymphalis desu.uno download <dir> <slug.id> [slug.id2] ...").as_slice()) {
        return Some("  nymphalis desu.uno download <папка> <slug.id> [slug.id2] ...");
    }
    if eq_chars(en, chars_of("      Download all chapters of the given manga title(s) into <dir>.").as_slice()) {
        return Some("      Скачать все главы указанной манги в <папка> (можно указать несколько).");
    }
    if eq_chars(en, chars_of("  nymphalis desu.uno search <keyword>").as_slice()) {
        return Some("  nymphalis desu.uno search <ключевое_слово>");
    }
    if eq_chars(en, chars_of("      Search for manga. Output: Human Title | slug.id").as_slice()) {
        return Some("      Поиск манги. Вывод: Человеческое название | slug.id");
    }
    if eq_chars(en, chars_of("Global commands:").as_slice()) {
        return Some("Глобальные команды:");
    }
    if eq_chars(en, chars_of("  nymphalis set <variable> <value>").as_slice()) {
        return Some("  nymphalis set <variable> <value>");
    }
    if eq_chars(en, chars_of("      Save a setting into {} . Variables: user_id, api_key, jobs.").as_slice()) {
        return Some("      Сохранить настройку в {} . Переменные: user_id, api_key, jobs.");
    }
    if eq_chars(en, chars_of("Examples:").as_slice()) {
        return Some("Примеры:");
    }
    if eq_chars(en, chars_of("  nymphalis set user_id 1955543").as_slice()) {
        return Some("  nymphalis set user_id 1955543");
    }
    if eq_chars(en, chars_of("  nymphalis set api_key c76c2060...your_key...").as_slice()) {
        return Some("  nymphalis set api_key c76c2060...your_key...");
    }
    if eq_chars(en, chars_of("  nymphalis set jobs 8").as_slice()) {
        return Some("  nymphalis set jobs 8");
    }
    if eq_chars(en, chars_of("  nymphalis gelbooru.com search aeg").as_slice()) {
        return Some("  nymphalis gelbooru.com search aeg");
    }
    if eq_chars(en, chars_of("  nymphalis gelbu download ./downloads cat blue_eyes").as_slice()) {
        return Some("  nymphalis gelbu download ./downloads cat blue_eyes");
    }
    if eq_chars(en, chars_of("  nymphalis desu.uno search gals").as_slice()) {
        return Some("  nymphalis desu.uno search gals");
    }
    if eq_chars(en, chars_of("  nymphalis desu download ./manga imaizumins-house-is-a-place-for-gals-to-gather.5467").as_slice()) {
        return Some("  nymphalis desu download ./manga imaizumins-house-is-a-place-for-gals-to-gather.5467");
    }
    if eq_chars(en, chars_of("Unknown service: {}\n").as_slice()) {
        return Some("Неизвестный сервис: {}\n");
    }
    if eq_chars(en, chars_of("Unknown option: {}\n").as_slice()) {
        return Some("Неизвестная опция: {}\n");
    }
    if eq_chars(en, chars_of("Unknown command for {}: {}\n").as_slice()) {
        return Some("Неизвестная команда для {}: {}\n");
    }
    if eq_chars(en, chars_of("Failed to build HTTP client: {}").as_slice()) {
        return Some("Не удалось создать HTTP-клиент: {}");
    }
    if eq_chars(en, chars_of("Failed to serialize config: {}").as_slice()) {
        return Some("Не удалось сериализовать конфиг: {}");
    }
    if eq_chars(en, chars_of("Failed to write {}: {}").as_slice()) {
        return Some("Не удалось записать {}: {}");
    }
    if eq_chars(en, chars_of("set requires exactly <variable> <value>.\n").as_slice()) {
        return Some("set требует ровно <variable> <value>.\n");
    }
    if eq_chars(en, chars_of("Unknown variable '{}'. Supported: user_id, api_key, jobs").as_slice()) {
        return Some("Неизвестная переменная '{}'. Поддерживаются: user_id, api_key, jobs");
    }
    if eq_chars(en, chars_of("jobs must be a positive integer.").as_slice()) {
        return Some("jobs должно быть положительным целым числом.");
    }
    if eq_chars(en, chars_of("Saved '{}' to {}").as_slice()) {
        return Some("Сохранено '{}' в {}");
    }
    if eq_chars(en, chars_of("Failed to create directory '{}': {}").as_slice()) {
        return Some("Не удалось создать папку '{}': {}");
    }
    if eq_chars(en, chars_of("Warning: GELBOORU_USER_ID / GELBOORU_API_KEY are not set").as_slice()) {
        return Some("Внимание: GELBOORU_USER_ID / GELBOORU_API_KEY не заданы");
    }
    if eq_chars(en, chars_of("(checked environment, .env, and {}).").as_slice()) {
        return Some("(проверены переменные окружения, .env и {}).");
    }
    if eq_chars(en, chars_of("Gelbooru now rejects anonymous API requests with 401 Unauthorized.").as_slice()) {
        return Some("Gelbooru теперь отклоняет анонимные запросы с кодом 401.");
    }
    if eq_chars(en, chars_of("Get your credentials at gelbooru.com -> My Account -> Options ->").as_slice()) {
        return Some("Получи учётные данные на gelbooru.com -> My Account -> Options ->");
    }
    if eq_chars(en, chars_of("API Access Credentials, then either:").as_slice()) {
        return Some("API Access Credentials, затем либо:");
    }
    if eq_chars(en, chars_of("  nymphalis set user_id 12345").as_slice()) {
        return Some("  nymphalis set user_id 12345");
    }
    if eq_chars(en, chars_of("  nymphalis set api_key yourkey").as_slice()) {
        return Some("  nymphalis set api_key yourkey");
    }
    if eq_chars(en, chars_of("or export them as environment variables.").as_slice()) {
        return Some("либо экспортируй их как переменные окружения.");
    }
    if eq_chars(en, chars_of("401 Unauthorized: Gelbooru requires API credentials for every").as_slice()) {
        return Some("401 Unauthorized: Gelbooru требует учётные данные для каждого");
    }
    if eq_chars(en, chars_of("request (anonymous access was disabled in 2025). Set:").as_slice()) {
        return Some("запроса (анонимный доступ отключён с 2025 года). Задай:");
    }
    if eq_chars(en, chars_of("  GELBOORU_USER_ID  and  GELBOORU_API_KEY").as_slice()) {
        return Some("  GELBOORU_USER_ID  и  GELBOORU_API_KEY");
    }
    if eq_chars(en, chars_of("(get them at gelbooru.com -> My Account -> Options ->").as_slice()) {
        return Some("(получи их на gelbooru.com -> My Account -> Options ->");
    }
    if eq_chars(en, chars_of("API Access Credentials) and try again.").as_slice()) {
        return Some("API Access Credentials) и попробуй снова.");
    }
    if eq_chars(en, chars_of("download requires a directory and at least one tag.\n").as_slice()) {
        return Some("download требует папку и хотя бы один тег.\n");
    }
    if eq_chars(en, chars_of("Tags: {}").as_slice()) {
        return Some("Теги: {}");
    }
    if eq_chars(en, chars_of("Output directory: {}").as_slice()) {
        return Some("Папка для сохранения: {}");
    }
    if eq_chars(en, chars_of("API request error (page {}): {}").as_slice()) {
        return Some("Ошибка запроса к API (страница {}): {}");
    }
    if eq_chars(en, chars_of("API returned status {} on page {}").as_slice()) {
        return Some("API вернул статус {} на странице {}");
    }
    if eq_chars(en, chars_of("No images found for the given tags.").as_slice()) {
        return Some("По указанным тегам ничего не найдено.");
    }
    if eq_chars(en, chars_of("No new images to download, everything is already on disk.").as_slice()) {
        return Some("Новых изображений нет, всё уже скачано.");
    }
    if eq_chars(en, chars_of("Checking file sizes...").as_slice()) {
        return Some("Проверка размеров файлов...");
    }
    if eq_chars(en, chars_of("Parallel workers: {}").as_slice()) {
        return Some("Параллельных потоков: {}");
    }
    if eq_chars(en, chars_of("About to download {} images (~{}). Continue? [y/N]: ").as_slice()) {
        return Some("Будет скачано {} изображений (~{}). Продолжить? [y/N]: ");
    }
    if eq_chars(en, chars_of("Cancelled.").as_slice()) {
        return Some("Отменено.");
    }
    if eq_chars(en, chars_of("Done. Downloaded: {}, skipped (already existed): {}").as_slice()) {
        return Some("Готово. Скачано: {}, пропущено (уже было): {}");
    }
    if eq_chars(en, chars_of("search expects exactly one keyword.\n").as_slice()) {
        return Some("search требует ровно одно ключевое слово.\n");
    }
    if eq_chars(en, chars_of("API request error: {}").as_slice()) {
        return Some("Ошибка запроса к API: {}");
    }
    if eq_chars(en, chars_of("API returned status {}").as_slice()) {
        return Some("API вернул статус {}");
    }
    if eq_chars(en, chars_of("Failed to read response: {}").as_slice()) {
        return Some("Не удалось прочитать ответ: {}");
    }
    if eq_chars(en, chars_of("Failed to parse JSON: {}\nServer response: {}").as_slice()) {
        return Some("Не удалось распарсить JSON: {}\nОтвет сервера: {}");
    }
    if eq_chars(en, chars_of("No tags found matching '{}'.").as_slice()) {
        return Some("Не найдено тегов, соответствующих '{}'.");
    }
    if eq_chars(en, chars_of("Tags matching '{}':\n").as_slice()) {
        return Some("Теги, соответствующие '{}':\n");
    }
    if eq_chars(en, chars_of("TAG").as_slice()) {
        return Some("ТЕГ");
    }
    if eq_chars(en, chars_of("POSTS").as_slice()) {
        return Some("ПОСТОВ");
    }
    if eq_chars(en, chars_of("{} tags found. Use the exact tag name with: nymphalis gelbooru.com download <dir> <tag>").as_slice()) {
        return Some("Найдено тегов: {}. Используй точное имя с: nymphalis gelbooru.com download <папка> <тег>");
    }
    if eq_chars(en, chars_of("Total").as_slice()) {
        return Some("Всего");
    }
    if eq_chars(en, chars_of("{} ({}/s)").as_slice()) {
        return Some("{} ({}/с)");
    }
    if eq_chars(en, chars_of("request error: {}").as_slice()) {
        return Some("ошибка запроса: {}");
    }
    if eq_chars(en, chars_of("status {}").as_slice()) {
        return Some("статус {}");
    }
    if eq_chars(en, chars_of("create file: {}").as_slice()) {
        return Some("создание файла: {}");
    }
    if eq_chars(en, chars_of("read: {}").as_slice()) {
        return Some("чтение: {}");
    }
    if eq_chars(en, chars_of("write: {}").as_slice()) {
        return Some("запись: {}");
    }
    if eq_chars(en, chars_of("rename file: {}").as_slice()) {
        return Some("переименование файла: {}");
    }
    if eq_chars(en, chars_of("download requires at least one manga title.\n").as_slice()) {
        return Some("download требует хотя бы одно название манги.\n");
    }
    if eq_chars(en, chars_of("No manga found matching '{}'.").as_slice()) {
        return Some("Манга по запросу '{}' не найдена.");
    }
    if eq_chars(en, chars_of("Manga matching '{}':\n").as_slice()) {
        return Some("Манга по запросу '{}':\n");
    }
    if eq_chars(en, chars_of("HUMAN TITLE").as_slice()) {
        return Some("НАЗВАНИЕ");
    }
    if eq_chars(en, chars_of("SYSTEM ID").as_slice()) {
        return Some("СИСТЕМНЫЙ ID");
    }
    if eq_chars(en, chars_of("{} results. Use the id/slug.id with: nymphalis desu.uno download <slug.id>").as_slice()) {
        return Some("Найдено: {}. Используй id/slug.id с: nymphalis desu.uno download <slug.id>");
    }
    if eq_chars(en, chars_of("Invalid manga id format: '{}'. Expected numeric id or 'slug.id'.").as_slice()) {
        return Some("Неверный формат id манги: '{}'. Ожидается числовой id или 'slug.id'.");
    }
    if eq_chars(en, chars_of("Failed to fetch manga info for id {}: {}").as_slice()) {
        return Some("Не удалось получить информацию о манге с id {}: {}");
    }
    if eq_chars(en, chars_of("No chapters found for '{}'.").as_slice()) {
        return Some("Главы для '{}' не найдены.");
    }
    if eq_chars(en, chars_of("Downloading '{}': {} chapter(s)").as_slice()) {
        return Some("Скачивание '{}': {} глав(ы)");
    }
    if eq_chars(en, chars_of("About to download {} chapter(s). Continue? [y/N]: ").as_slice()) {
        return Some("Будет скачано {} глав(ы). Продолжить? [y/N]: ");
    }
    if eq_chars(en, chars_of("Failed to fetch pages for chapter {}: {}").as_slice()) {
        return Some("Не удалось получить страницы для главы {}: {}");
    }
    if eq_chars(en, chars_of("No pages in chapter {}.").as_slice()) {
        return Some("Страниц в главе {} не найдено.");
    }
    if eq_chars(en, chars_of("Chapter {}/{}").as_slice()) {
        return Some("Глава {}/{}");
    }
    if eq_chars(en, chars_of("Done. {} chapter(s) downloaded.").as_slice()) {
        return Some("Готово. Скачано {} глав(ы).");
    }
    if eq_chars(en, chars_of("Failed to fetch chapters for '{}': {}").as_slice()) {
        return Some("Не удалось получить главы для '{}': {}");
    }
    None
}

/// A message in the language: the English text itself, or its Russian text
/// from the table (the English text when the table has none).
pub open spec fn spec_rep(lang: Lang, en: Seq<char>) -> Seq<char> {
    match lang {
        Lang::En => en,
        Lang::Ru => match ru_text(en) {
            Some(t) => t,
            None => en,
        },
    }
}

/// The message `en` in `lang`.
pub fn rep(lang: Lang, en: &str) -> (r: String)
    ensures
        r@ == spec_rep(lang, en@),
{
    match lang {
        Lang::En => {
            let v = chars_of(en);
            string_of(v.as_slice())
        },
        Lang::Ru => {
            let v = chars_of(en);
            match ru_text_of(v.as_slice()) {
                Some(t) => {
                    let tv = chars_of(t);
                    string_of(tv.as_slice())
                },
                None => string_of(v.as_slice()),
            }
        },
    }
}

/// The placeholder that arguments fill.
pub open spec fn placeholder() -> Seq<char> {
    seq!['{', '}']
}

/// `s` with its first `{}` replaced by `arg` (unchanged when it has none).
pub open spec fn fill_first(s: Seq<char>, arg: Seq<char>) -> Seq<char> {
    match find(s, placeholder()) {
        Some(p) => s.take(p) + arg + s.skip(p + 2),
        None => s,
    }
}

/// `s` with its placeholders filled by `args`, one after the other.
pub open spec fn fill_all(s: Seq<char>, args: Seq<Seq<char>>) -> Seq<char>
    decreases args.len(),
{
    if args.len() == 0 {
        s
    } else {
        fill_all(fill_first(s, args[0]), args.drop_first())
    }
}

/// The texts of `args`.
pub open spec fn arg_views(args: Seq<&str>) -> Seq<Seq<char>> {
    args.map_values(|a: &str| a@)
}

/// The message `en` in `lang`, each argument in turn put in place of the
/// first `{}` left in the text (arguments without a `{}` are dropped).
pub fn repf(lang: Lang, en: &str, args: &[&str]) -> (r: String)
    ensures
        r@ == fill_all(spec_rep(lang, en@), arg_views(args@)),
{
    let base = rep(lang, en);
    let mut s = chars_of(base.as_str());
    let mut ph: Vec<char> = Vec::new();
    ph.push('{');
    ph.push('}');
    assert(ph@ == placeholder());
    let ghost all = arg_views(args@);
    let mut i: usize = 0;
    assert(all.skip(0) == all);
    while i < args.len()
        invariant
            i <= args@.len(),
            ph@ == placeholder(),
            all == arg_views(args@),
            fill_all(s@, all.skip(i as int)) == fill_all(spec_rep(lang, en@), all),
        decreases args@.len() - i,
    {
        assert(all.skip(i as int).drop_first() == all.skip(i + 1));
        assert(all.skip(i as int)[0] == args@[i as int]@);
        proof {
            lemma_find_from(s@, placeholder(), 0);
        }
        match find_exec(s.as_slice(), ph.as_slice()) {
            Some(pos) => {
                let n = s.len();
                assert(pos + 2 <= n);
                let mut next = sub_vec(s.as_slice(), 0, pos);
                push_str(&mut next, args[i]);
                let tail = sub_vec(s.as_slice(), pos + 2, s.len());
                push_all(&mut next, tail.as_slice());
                s = next;
            },
            None => {},
        }
        i = i + 1;
    }
    assert(all.skip(args@.len() as int).len() == 0);
    string_of(s.as_slice())
}

} // verus!
